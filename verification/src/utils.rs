//! Perfect-hash-function generation and qualified names for scopes:
//! identifiers for variables, types and functions.
//!
//! Given a fixed, fully known set of distinct names, the functions
//! here search bounded parameters `(a, r)` for which the mixing hash
//! is collision-free over the set, and build a slot table indexed by
//! that hash.  Lookups verify the slot's content, so a name outside
//! the build set can never produce a false hit.

use std::collections::HashSet;
use vstd::prelude::*;
use vstd::string::StrSliceExecFns;

verus! {

broadcast use vstd::std_specs::hash::group_hash_axioms;

/// Upper bound (exclusive) of the searched multiplier `a`.
pub const PHF_A_LIMIT: u64 = 1_000_000;

/// Upper bound (exclusive) of the searched shift `r`.
pub const PHF_R_LIMIT: u32 = 37;

/// Base of the polynomial string hash.
pub const PRIME_CONVERTER: u64 = 257;

//---------------------------
// NAME & NAMESPACE SECTION
//---------------------------

/// A fully qualified name: the scope path and the leaf name.
#[derive(Debug, Clone, Eq, PartialEq, Hash)]
pub struct FullName {
    pub namespace: Vec<String>,
    pub name: String,
}

//--------------------------------------------
// PERFECT HASH FUNCTION LOGIC
//--------------------------------------------

/// The polynomial string value: `value = value * PRIME_CONVERTER +
/// char`, folded left to right over the characters with wraparound
/// 64-bit arithmetic.
pub open spec fn spec_str_to_int(s: Seq<char>) -> u64
    decreases s.len(),
{
    if s.len() == 0 {
        0u64
    } else {
        vstd::wrapping::u64_specs::wrapping_add(
            vstd::wrapping::u64_specs::wrapping_mul(
                spec_str_to_int(s.drop_last()),
                PRIME_CONVERTER,
            ),
            s.last() as u64,
        )
    }
}

/// The mixing hash over a string: multiply the string value by `a`
/// with wraparound, fold the high bits in with a shift by `r`, and
/// reduce modulo `n`.
pub open spec fn spec_get_hash(s: Seq<char>, a: u64, r: u32, n: u64) -> u64
    recommends
        n > 0,
        r < 64,
{
    let x = spec_str_to_int(s);
    let product = vstd::wrapping::u64_specs::wrapping_mul(x, a);
    let mixed = product ^ (product >> (r as u64));
    mixed % n
}

/// `(a, r)` is collision-free over the name set: distinct positions
/// hash to distinct slots.
pub open spec fn phf_injective(names: Seq<Seq<char>>, a: u64, r: u32, n: u64) -> bool {
    forall|i: int, j: int|
        0 <= i < j < names.len() ==> #[trigger] spec_get_hash(names[i], a, r, n)
            != #[trigger] spec_get_hash(names[j], a, r, n)
}

/// Some pair within the search bounds is collision-free over the set.
pub open spec fn phf_params_exist(names: Seq<Seq<char>>, n: u64) -> bool {
    exists|a: u64, r: u32|
        1 <= a < PHF_A_LIMIT && r < PHF_R_LIMIT && #[trigger] phf_injective(names, a, r, n)
}

/// `(a2, r2)` is tried strictly before `(a, r)` in the search order:
/// multipliers ascend, and shifts ascend within one multiplier.
pub open spec fn pair_searched_before(a2: u64, r2: u32, a: u64, r: u32) -> bool {
    1 <= a2 && r2 < PHF_R_LIMIT && (a2 < a || (a2 == a && r2 < r))
}

/// The name set holds the same name at two positions.
pub open spec fn has_duplicate(names: Seq<Seq<char>>) -> bool {
    exists|i: int, j: int| 0 <= i < j < names.len() && names[i] == names[j]
}

/// A built slot table: as long as the set, every name sits in the slot
/// its hash selects, and every occupied slot is some name's slot.
pub open spec fn phf_table_ok(
    table: Seq<Option<Seq<char>>>,
    names: Seq<Seq<char>>,
    a: u64,
    r: u32,
    n: u64,
) -> bool {
    &&& table.len() == n
    &&& names.len() == n
    &&& forall|i: int|
        0 <= i < names.len() ==> table[spec_get_hash(#[trigger] names[i], a, r, n) as int]
            == Some(names[i])
    &&& forall|j: int|
        0 <= j < table.len() && (#[trigger] table[j]) is Some ==> exists|i: int|
            0 <= i < names.len() && spec_get_hash(#[trigger] names[i], a, r, n) == j && table[j]
                == Some(names[i])
}

/// Transform a string into a `u64` according to the formula
/// `value = value * PRIME_CONVERTER + char`, iterated over the
/// characters left to right with wraparound arithmetic.
pub fn str_to_int(s: &String) -> (r: u64)
    ensures
        r == spec_str_to_int(s@),
{
    str_to_int_chars(s.as_str())
}

/// The same polynomial value, computed over a string slice.
pub fn str_to_int_chars(s: &str) -> (r: u64)
    ensures
        r == spec_str_to_int(s@),
{
    let len = s.unicode_len();
    let mut value: u64 = 0;
    let mut i: usize = 0;
    while i < len
        invariant
            i <= len,
            len == s@.len(),
            value == spec_str_to_int(s@.take(i as int)),
        decreases len - i,
    {
        let ch = s.get_char(i);
        proof {
            assert(s@.take(i + 1).drop_last() =~= s@.take(i as int));
            assert(s@.take(i + 1).last() == s@[i as int]);
        }
        value = value.wrapping_mul(PRIME_CONVERTER).wrapping_add(ch as u64);
        i = i + 1;
    }
    proof {
        assert(s@.take(len as int) =~= s@);
    }
    value
}

/// Generate the hash number of the given string for parameters
/// `(a, r)` and table size `n`.
pub fn get_hash(s: &String, a: u64, r: u32, n: u64) -> (h: u64)
    requires
        n > 0,
        r < 64,
    ensures
        h == spec_get_hash(s@, a, r, n),
        h < n,
{
    get_hash_chars(s.as_str(), a, r, n)
}

/// The same hash, computed over a string slice.
pub fn get_hash_chars(s: &str, a: u64, r: u32, n: u64) -> (h: u64)
    requires
        n > 0,
        r < 64,
    ensures
        h == spec_get_hash(s@, a, r, n),
        h < n,
{
    let x: u64 = str_to_int_chars(s);
    let product: u64 = x.wrapping_mul(a);
    let mixed: u64 = product ^ (product >> r);
    mixed % n
}

/// Check one `(a, r)` candidate over the whole set, using a working
/// set of the hashes seen so far.
fn params_collision_free(strs: &Vec<String>, a: u64, r: u32, n: u64) -> (ok: bool)
    requires
        n == strs@.len(),
        1 <= a,
        r < PHF_R_LIMIT,
    ensures
        ok == phf_injective(strs.deep_view(), a, r, n),
{
    let ghost names = strs.deep_view();
    let mut seen: HashSet<u64> = HashSet::new();
    let mut k: usize = 0;
    while k < strs.len()
        invariant
            k <= strs@.len(),
            n == strs@.len(),
            1 <= a,
            r < PHF_R_LIMIT,
            names == strs.deep_view(),
            names.len() == strs@.len(),
            forall|i: int|
                0 <= i < k ==> seen@.contains(#[trigger] spec_get_hash(names[i], a, r, n)),
            forall|h: u64|
                #[trigger] seen@.contains(h) ==> exists|i: int|
                    0 <= i < k && spec_get_hash(names[i], a, r, n) == h,
            forall|i: int, j: int|
                0 <= i < j < k ==> #[trigger] spec_get_hash(names[i], a, r, n)
                    != #[trigger] spec_get_hash(names[j], a, r, n),
        decreases strs@.len() - k,
    {
        proof {
            assert(names[k as int] == strs@[k as int]@);
        }
        let h = get_hash(&strs[k], a, r, n);
        let inserted = seen.insert(h);
        if !inserted {
            proof {
                let i = choose|i: int| 0 <= i < k && spec_get_hash(names[i], a, r, n) == h;
                assert(spec_get_hash(names[i], a, r, n) == spec_get_hash(
                    names[k as int],
                    a,
                    r,
                    n,
                ));
                assert(!phf_injective(names, a, r, n));
            }
            return false;
        }
        k = k + 1;
    }
    true
}

/// Search the perfect-hash parameters `(a, r)` for the given list of
/// strings: multipliers from 1 up to [`PHF_A_LIMIT`], and for each of
/// them shifts from 0 up to [`PHF_R_LIMIT`].  The first collision-free
/// pair is returned; if none within the bounds is collision-free, the
/// search reports `None`.
pub(crate) fn search_phf_params(strs: &Vec<String>) -> (res: Option<(u64, u32)>)
    ensures
        res matches Some((a, r)) ==> {
            &&& 1 <= a < PHF_A_LIMIT
            &&& r < PHF_R_LIMIT
            &&& phf_injective(strs.deep_view(), a, r, strs@.len() as u64)
            &&& forall|a2: u64, r2: u32|
                pair_searched_before(a2, r2, a, r) ==> !#[trigger] phf_injective(
                    strs.deep_view(),
                    a2,
                    r2,
                    strs@.len() as u64,
                )
        },
        res is None ==> forall|a2: u64, r2: u32|
            1 <= a2 < PHF_A_LIMIT && r2 < PHF_R_LIMIT ==> !#[trigger] phf_injective(
                strs.deep_view(),
                a2,
                r2,
                strs@.len() as u64,
            ),
{
    let ghost names = strs.deep_view();
    let n: u64 = strs.len() as u64;
    let mut a: u64 = 1;
    while a < PHF_A_LIMIT
        invariant
            1 <= a <= PHF_A_LIMIT,
            n == strs@.len(),
            names == strs.deep_view(),
            forall|a2: u64, r2: u32|
                pair_searched_before(a2, r2, a, 0) ==> !#[trigger] phf_injective(
                    names,
                    a2,
                    r2,
                    n,
                ),
        decreases PHF_A_LIMIT - a,
    {
        let mut r: u32 = 0;
        while r < PHF_R_LIMIT
            invariant
                1 <= a < PHF_A_LIMIT,
                r <= PHF_R_LIMIT,
                n == strs@.len(),
                names == strs.deep_view(),
                forall|a2: u64, r2: u32|
                    pair_searched_before(a2, r2, a, r) ==> !#[trigger] phf_injective(
                        names,
                        a2,
                        r2,
                        n,
                    ),
            decreases PHF_R_LIMIT - r,
        {
            if params_collision_free(strs, a, r, n) {
                return Some((a, r));
            }
            r = r + 1;
        }
        a = a + 1;
    }
    None
}

/// Find the perfect-hash parameters `(a, r)` for a given array of
/// strings.  `Some` exactly when some pair within the search bounds is
/// collision-free, and then the first such pair in search order.
pub fn find_phf_params(strs: Vec<String>) -> (res: Option<(u64, u32)>)
    ensures
        res matches Some((a, r)) ==> {
            &&& 1 <= a < PHF_A_LIMIT
            &&& r < PHF_R_LIMIT
            &&& phf_injective(strs.deep_view(), a, r, strs@.len() as u64)
            &&& forall|a2: u64, r2: u32|
                pair_searched_before(a2, r2, a, r) ==> !#[trigger] phf_injective(
                    strs.deep_view(),
                    a2,
                    r2,
                    strs@.len() as u64,
                )
        },
        res is Some <==> phf_params_exist(strs.deep_view(), strs@.len() as u64),
{
    let res = search_phf_params(&strs);
    proof {
        if res is Some {
            let (a, r) = res.unwrap();
            assert(phf_injective(strs.deep_view(), a, r, strs@.len() as u64));
            assert(phf_params_exist(strs.deep_view(), strs@.len() as u64));
        } else {
            if phf_params_exist(strs.deep_view(), strs@.len() as u64) {
                let (a, r) = choose|a: u64, r: u32|
                    1 <= a < PHF_A_LIMIT && r < PHF_R_LIMIT && #[trigger] phf_injective(
                        strs.deep_view(),
                        a,
                        r,
                        strs@.len() as u64,
                    );
                assert(!phf_injective(strs.deep_view(), a, r, strs@.len() as u64));
            }
        }
    }
    res
}

/// Errors of the type-table build.
#[derive(Debug, PartialEq, Eq, Structural)]
pub enum TypeTableError {
    /// The same name stands twice in the input list.
    DuplicateName,
    /// The input list's length differs from the declared capacity — a
    /// broken contract of the upstream compiler, not a runtime
    /// condition.
    SizeMismatch,
    /// No parameter pair within the search bounds is collision-free
    /// over the input set.
    NoPerfectHashFound,
}

/// Generate the perfect-hash table for `values`: a vector where each
/// input string sits at the index its hash selects, together with the
/// `a` and `r` parameters used to retrieve the hash whenever needed.
///
/// The list length must equal the declared capacity `vec_size`: a
/// mismatch is a broken contract of the upstream compiler, excluded by
/// precondition.  Duplicate names are rejected as `DuplicateName`
/// before the search begins; a search that exhausts its bounds reports
/// `NoPerfectHashFound`.
pub fn gen_phf(values: Vec<String>, vec_size: usize) -> (res: Result<
    (Vec<Option<String>>, u64, u32),
    TypeTableError,
>)
    requires
        values@.len() == vec_size,
    ensures
        has_duplicate(values.deep_view()) ==> res == Err::<
            (Vec<Option<String>>, u64, u32),
            TypeTableError,
        >(TypeTableError::DuplicateName),
        !has_duplicate(values.deep_view()) && !phf_params_exist(
            values.deep_view(),
            vec_size as u64,
        ) ==> res == Err::<(Vec<Option<String>>, u64, u32), TypeTableError>(
            TypeTableError::NoPerfectHashFound,
        ),
        res matches Ok((m, a, r)) ==> {
            &&& !has_duplicate(values.deep_view())
            &&& 1 <= a < PHF_A_LIMIT
            &&& r < PHF_R_LIMIT
            &&& phf_injective(values.deep_view(), a, r, vec_size as u64)
            &&& phf_table_ok(m.deep_view(), values.deep_view(), a, r, vec_size as u64)
        },
        res is Ok <==> (!has_duplicate(values.deep_view()) && phf_params_exist(
            values.deep_view(),
            vec_size as u64,
        )),
{
    build_phf(&values)
}

/// The table build over a borrowed list; the declared capacity is the
/// list's own length.
pub(crate) fn build_phf(values: &Vec<String>) -> (res: Result<
    (Vec<Option<String>>, u64, u32),
    TypeTableError,
>)
    ensures
        has_duplicate(values.deep_view()) ==> res == Err::<
            (Vec<Option<String>>, u64, u32),
            TypeTableError,
        >(TypeTableError::DuplicateName),
        !has_duplicate(values.deep_view()) && !phf_params_exist(
            values.deep_view(),
            values@.len() as u64,
        ) ==> res == Err::<(Vec<Option<String>>, u64, u32), TypeTableError>(
            TypeTableError::NoPerfectHashFound,
        ),
        res matches Ok((m, a, r)) ==> {
            &&& !has_duplicate(values.deep_view())
            &&& 1 <= a < PHF_A_LIMIT
            &&& r < PHF_R_LIMIT
            &&& phf_injective(values.deep_view(), a, r, values@.len() as u64)
            &&& phf_table_ok(m.deep_view(), values.deep_view(), a, r, values@.len() as u64)
        },
        res is Ok <==> (!has_duplicate(values.deep_view()) && phf_params_exist(
            values.deep_view(),
            values@.len() as u64,
        )),
{
    let ghost names = values.deep_view();
    let n_len: usize = values.len();
    // Duplicate names are a build error, detected before the search.
    let mut i: usize = 0;
    while i < n_len
        invariant
            i <= n_len,
            n_len == values@.len(),
            names == values.deep_view(),
            forall|x: int, y: int| 0 <= x < y < n_len && x < i ==> names[x] != names[y],
        decreases n_len - i,
    {
        let mut j: usize = i + 1;
        while j < n_len
            invariant
                i < j <= n_len,
                n_len == values@.len(),
                names == values.deep_view(),
                forall|x: int, y: int| 0 <= x < y < n_len && x < i ==> names[x] != names[y],
                forall|y: int| i < y < j ==> names[i as int] != names[y],
            decreases n_len - j,
        {
            proof {
                assert(names[i as int] == values@[i as int]@);
                assert(names[j as int] == values@[j as int]@);
            }
            if values[i] == values[j] {
                proof {
                    assert(0 <= i < j < names.len() && names[i as int] == names[j as int]);
                    assert(has_duplicate(names));
                }
                return Err(TypeTableError::DuplicateName);
            }
            j = j + 1;
        }
        i = i + 1;
    }
    assert(!has_duplicate(names));

    let n: u64 = n_len as u64;
    match search_phf_params(&values) {
        Some((a, r)) => {
            let mut mapping: Vec<Option<String>> = Vec::new();
            let mut k: usize = 0;
            while k < n_len
                invariant
                    k <= n_len,
                    mapping@.len() == k,
                    forall|j2: int| 0 <= j2 < k ==> mapping@[j2] is None,
                decreases n_len - k,
            {
                mapping.push(None);
                k = k + 1;
            }
            proof {
                assert(forall|j2: int|
                    0 <= j2 < mapping.deep_view().len() ==> mapping.deep_view()[j2] is None);
            }
            let mut idx_i: usize = 0;
            while idx_i < n_len
                invariant
                    idx_i <= n_len,
                    n_len == values@.len(),
                    n == n_len,
                    names == values.deep_view(),
                    names.len() == n_len,
                    1 <= a < PHF_A_LIMIT,
                    r < PHF_R_LIMIT,
                    phf_injective(names, a, r, n),
                    mapping@.len() == n_len,
                    mapping.deep_view().len() == n_len,
                    forall|i0: int|
                        0 <= i0 < idx_i ==> mapping.deep_view()[spec_get_hash(
                            #[trigger] names[i0],
                            a,
                            r,
                            n,
                        ) as int] == Some(names[i0]),
                    forall|j2: int|
                        0 <= j2 < n_len && (#[trigger] mapping.deep_view()[j2]) is Some
                            ==> exists|i0: int|
                            0 <= i0 < idx_i && spec_get_hash(names[i0], a, r, n) == j2
                                && mapping.deep_view()[j2] == Some(names[i0]),
                decreases n_len - idx_i,
            {
                proof {
                    assert(names[idx_i as int] == values@[idx_i as int]@);
                }
                let ghost pre_dv = mapping.deep_view();
                let idx: usize = get_hash(&values[idx_i], a, r, n) as usize;
                let entry = Some(values[idx_i].clone());
                proof {
                    assert(entry->0@ == names[idx_i as int]);
                }
                mapping[idx] = entry;
                proof {
                    assert(mapping.deep_view() =~= pre_dv.update(
                        idx as int,
                        Some(names[idx_i as int]),
                    ));
                }
                idx_i = idx_i + 1;
            }
            Ok((mapping, a, r))
        },
        None => Err(TypeTableError::NoPerfectHashFound),
    }
}

} // verus!
