//! The intermediate-representation layer: qualified identifiers and
//! the type symbol table, a perfect-hash table over the fixed set of
//! type names visible in one scope.

use vstd::prelude::*;

use crate::utils::{
    get_hash_chars, has_duplicate, pair_searched_before, phf_injective, phf_params_exist,
    phf_table_ok, spec_get_hash, str_to_int_chars, TypeTableError, PHF_A_LIMIT, PHF_R_LIMIT,
};

verus! {

/// Identifier for variable, type and function names: the scope path
/// and the leaf name.  Equality is over the full qualified path.
#[derive(Debug)]
pub struct Identifier {
    pub namespace: Vec<String>,
    pub name: String,
}

impl View for Identifier {
    type V = (Seq<Seq<char>>, Seq<char>);

    open spec fn view(&self) -> (Seq<Seq<char>>, Seq<char>) {
        (self.namespace.deep_view(), self.name@)
    }
}

impl PartialEq for Identifier {
    fn eq(&self, other: &Identifier) -> (r: bool) {
        if self.namespace.len() != other.namespace.len() {
            proof {
                assert(self.namespace.deep_view().len() == self.namespace@.len());
                assert(other.namespace.deep_view().len() == other.namespace@.len());
            }
            return false;
        }
        let mut i: usize = 0;
        while i < self.namespace.len()
            invariant
                i <= self.namespace@.len(),
                self.namespace@.len() == other.namespace@.len(),
                forall|j: int|
                    0 <= j < i ==> self.namespace.deep_view()[j] == other.namespace.deep_view()[j],
            decreases self.namespace@.len() - i,
        {
            if self.namespace[i] != other.namespace[i] {
                proof {
                    assert(self.namespace.deep_view()[i as int] == self.namespace@[i as int]@);
                    assert(other.namespace.deep_view()[i as int] == other.namespace@[i as int]@);
                }
                return false;
            }
            proof {
                assert(self.namespace.deep_view()[i as int] == self.namespace@[i as int]@);
                assert(other.namespace.deep_view()[i as int] == other.namespace@[i as int]@);
            }
            i = i + 1;
        }
        proof {
            assert(self.namespace.deep_view() =~= other.namespace.deep_view());
        }
        self.name == other.name
    }
}

impl vstd::std_specs::cmp::PartialEqSpecImpl for Identifier {
    open spec fn obeys_eq_spec() -> bool {
        true
    }

    open spec fn eq_spec(&self, other: &Identifier) -> bool {
        self@ == other@
    }
}

/// Intermediate representation version alpha, to be evaluated by the
/// interpreter.
pub trait IRa {

}

/// Where the type names of one scope are defined and resolved: a
/// perfect-hash slot table of fixed capacity `N` with the parameters
/// `(a, r)` of its hash.
pub struct TypesDef<const N: usize> {
    types_list: Vec<Option<String>>,
    a_value: u64,
    r_value: u32,
}

impl<const N: usize> TypesDef<N> {
    /// The slot table, one optional name per slot.
    pub closed spec fn spec_slots(&self) -> Seq<Option<Seq<char>>> {
        self.types_list.deep_view()
    }

    /// The multiplier of the table's hash.
    pub closed spec fn spec_a(&self) -> u64 {
        self.a_value
    }

    /// The shift of the table's hash.
    pub closed spec fn spec_r(&self) -> u32 {
        self.r_value
    }

    /// Well-formedness: exactly `N` slots, a shift within the search
    /// bound, and every occupied slot placed where its own hash
    /// points.
    pub closed spec fn wf(&self) -> bool {
        &&& self.types_list@.len() == N
        &&& self.types_list.deep_view().len() == N
        &&& self.r_value < PHF_R_LIMIT
        &&& forall|j: int|
            0 <= j < N && (#[trigger] self.types_list.deep_view()[j]) is Some ==> spec_get_hash(
                self.types_list.deep_view()[j]->0,
                self.a_value,
                self.r_value,
                N as u64,
            ) == j
    }

    /// Generate the polynomial value of the given string.
    pub fn str_to_int(&self, s: &str) -> (r: u64)
        ensures
            r == crate::utils::spec_str_to_int(s@),
    {
        str_to_int_chars(s)
    }

    /// Generate the hash number of the given string.
    pub fn hash_func(&self, s: &str, a: u64, r: u32, n: u64) -> (h: u64)
        requires
            n > 0,
            r < 64,
        ensures
            h == spec_get_hash(s@, a, r, n),
            h < n,
    {
        get_hash_chars(s, a, r, n)
    }

    /// Find the perfect-hash parameters `(a, r)` for the given array
    /// of strings: the first collision-free pair in search order, or
    /// `None` when the bounded search is exhausted.
    pub fn find_perfect_hash_params(&self, strs: &Vec<String>) -> (res: Option<(u64, u32)>)
        ensures
            res matches Some((a, r)) ==> {
                &&& 1 <= a < PHF_A_LIMIT
                &&& r < PHF_R_LIMIT
                &&& phf_injective(strs.deep_view(), a, r, strs@.len() as u64)
                &&& forall|a2: u64, r2: u32|
                    pair_searched_before(a2, r2, a, r) ==> !#[trigger] phf_injective(
                        strs.deep_view(),
                        a2,
                        r2,
                        strs@.len() as u64,
                    )
            },
            res is Some <==> phf_params_exist(strs.deep_view(), strs@.len() as u64),
    {
        let res = crate::utils::search_phf_params(strs);
        proof {
            if res is Some {
                let (a, r) = res.unwrap();
                assert(phf_injective(strs.deep_view(), a, r, strs@.len() as u64));
            } else {
                if phf_params_exist(strs.deep_view(), strs@.len() as u64) {
                    let (a, r) = choose|a: u64, r: u32|
                        1 <= a < PHF_A_LIMIT && r < PHF_R_LIMIT && #[trigger] phf_injective(
                            strs.deep_view(),
                            a,
                            r,
                            strs@.len() as u64,
                        );
                    assert(!phf_injective(strs.deep_view(), a, r, strs@.len() as u64));
                }
            }
        }
        res
    }

    /// Generate the perfect-hash table for `values`, whose length must
    /// equal the declared capacity `N` (a mismatch is a broken
    /// contract of the upstream compiler, excluded by precondition).
    /// Duplicates are rejected before the search; an exhausted search
    /// reports `NoPerfectHashFound`.
    pub fn gen_perfect_hash(&self, values: &Vec<String>) -> (res: Result<
        (Vec<Option<String>>, u64, u32),
        TypeTableError,
    >)
        requires
            values@.len() == N,
        ensures
            has_duplicate(values.deep_view()) ==> res == Err::<
                (Vec<Option<String>>, u64, u32),
                TypeTableError,
            >(TypeTableError::DuplicateName),
            !has_duplicate(values.deep_view()) && !phf_params_exist(
                values.deep_view(),
                N as u64,
            ) ==> res == Err::<(Vec<Option<String>>, u64, u32), TypeTableError>(
                TypeTableError::NoPerfectHashFound,
            ),
            res matches Ok((m, a, r)) ==> {
                &&& !has_duplicate(values.deep_view())
                &&& 1 <= a < PHF_A_LIMIT
                &&& r < PHF_R_LIMIT
                &&& phf_injective(values.deep_view(), a, r, N as u64)
                &&& phf_table_ok(m.deep_view(), values.deep_view(), a, r, N as u64)
            },
            res is Ok <==> (!has_duplicate(values.deep_view()) && phf_params_exist(
                values.deep_view(),
                N as u64,
            )),
    {
        crate::utils::build_phf(values)
    }

    /// A fresh table: `N` empty slots and zeroed hash parameters.
    pub fn new() -> (t: TypesDef<N>)
        ensures
            t.wf(),
            t.spec_slots().len() == N,
            forall|j: int| 0 <= j < N ==> (#[trigger] t.spec_slots()[j]) is None,
            t.spec_a() == 0,
            t.spec_r() == 0,
    {
        let mut types_list: Vec<Option<String>> = Vec::new();
        let mut k: usize = 0;
        while k < N
            invariant
                k <= N,
                types_list@.len() == k,
                forall|j: int| 0 <= j < k ==> (#[trigger] types_list@[j]) is None,
            decreases N - k,
        {
            types_list.push(None);
            k = k + 1;
        }
        proof {
            assert(forall|j: int|
                0 <= j < N ==> (#[trigger] types_list.deep_view()[j]) is None);
        }
        TypesDef { types_list, a_value: 0, r_value: 0 }
    }

    /// Build the table over `values` and install it: on success the
    /// slots hold exactly the input names, each at the index its hash
    /// selects; on any build error the table is left unchanged.
    pub fn push(&mut self, values: &Vec<String>) -> (res: Result<(), TypeTableError>)
        requires
            old(self).wf(),
            values@.len() == N,
        ensures
            final(self).wf(),
            res is Ok <==> (!has_duplicate(values.deep_view()) && phf_params_exist(
                values.deep_view(),
                N as u64,
            )),
            has_duplicate(values.deep_view()) ==> res == Err::<(), TypeTableError>(
                TypeTableError::DuplicateName,
            ),
            !has_duplicate(values.deep_view()) && !phf_params_exist(
                values.deep_view(),
                N as u64,
            ) ==> res == Err::<(), TypeTableError>(TypeTableError::NoPerfectHashFound),
            res is Ok ==> phf_table_ok(
                final(self).spec_slots(),
                values.deep_view(),
                final(self).spec_a(),
                final(self).spec_r(),
                N as u64,
            ),
            !(res is Ok) ==> *final(self) == *old(self),
    {
        match self.gen_perfect_hash(values) {
            Ok((m, a, r)) => {
                self.types_list = m;
                self.a_value = a;
                self.r_value = r;
                proof {
                    assert forall|j: int|
                        0 <= j < N && (#[trigger] self.types_list.deep_view()[j]) is Some
                        implies spec_get_hash(
                        self.types_list.deep_view()[j]->0,
                        self.a_value,
                        self.r_value,
                        N as u64,
                    ) == j by {
                        let dv = self.types_list.deep_view();
                        let names = values.deep_view();
                        let i = choose|i: int|
                            0 <= i < names.len() && spec_get_hash(
                                #[trigger] names[i],
                                a,
                                r,
                                N as u64,
                            ) == j && dv[j] == Some(names[i]);
                        assert(dv[j]->0 == names[i]);
                    }
                }
                Ok(())
            },
            Err(e) => Err(e),
        }
    }

    /// Resolve `query`: its hash selects one slot, and the index is
    /// returned only if that slot holds exactly `query` — a perfect
    /// hash promises nothing about non-members, so the content check
    /// is what rules out false hits.
    pub fn lookup(&self, query: &String) -> (res: Option<usize>)
        requires
            self.wf(),
        ensures
            res matches Some(i) ==> i < N && self.spec_slots()[i as int] == Some(query@) && i
                == spec_get_hash(query@, self.spec_a(), self.spec_r(), N as u64),
            res is None ==> forall|j: int|
                0 <= j < N ==> #[trigger] self.spec_slots()[j] != Some(query@),
    {
        if N == 0 {
            return None;
        }
        let h = get_hash_chars(query.as_str(), self.a_value, self.r_value, N as u64) as usize;
        proof {
            assert(self.types_list.deep_view()[h as int] == match self.types_list@[h as int] {
                Some(s) => Some(s@),
                None => None::<Seq<char>>,
            });
        }
        match &self.types_list[h] {
            Some(s) => {
                if *s == *query {
                    Some(h)
                } else {
                    proof {
                        assert forall|j: int| 0 <= j < N
                            implies #[trigger] self.spec_slots()[j] != Some(query@) by {
                            if self.spec_slots()[j] == Some(query@) {
                                assert(spec_get_hash(query@, self.a_value, self.r_value, N as u64)
                                    == j);
                            }
                        }
                    }
                    None
                }
            },
            None => {
                proof {
                    assert forall|j: int| 0 <= j < N
                        implies #[trigger] self.spec_slots()[j] != Some(query@) by {
                        if self.spec_slots()[j] == Some(query@) {
                            assert(spec_get_hash(query@, self.a_value, self.r_value, N as u64)
                                == j);
                        }
                    }
                }
                None
            },
        }
    }
}

/// Every member of a built set is found at the slot its hash selects,
/// and that slot index is within the table; with a collision-free
/// hash, distinct members therefore resolve to distinct indices.
pub proof fn lemma_phf_member_lookup(
    table: Seq<Option<Seq<char>>>,
    names: Seq<Seq<char>>,
    a: u64,
    r: u32,
    n: u64,
    i: int,
)
    requires
        phf_table_ok(table, names, a, r, n),
        0 <= i < names.len(),
    ensures
        table[spec_get_hash(names[i], a, r, n) as int] == Some(names[i]),
        spec_get_hash(names[i], a, r, n) < n,
{
}

/// A query that is not one of the built names occupies no slot of the
/// table: a lookup of it can never produce a false hit.
pub proof fn lemma_phf_no_false_hit(
    table: Seq<Option<Seq<char>>>,
    names: Seq<Seq<char>>,
    a: u64,
    r: u32,
    n: u64,
    q: Seq<char>,
)
    requires
        phf_table_ok(table, names, a, r, n),
        forall|i: int| 0 <= i < names.len() ==> #[trigger] names[i] != q,
    ensures
        forall|j: int| 0 <= j < table.len() ==> #[trigger] table[j] != Some(q),
{
    assert forall|j: int| 0 <= j < table.len() implies #[trigger] table[j] != Some(q) by {
        if table[j] == Some(q) {
            let i = choose|i: int|
                0 <= i < names.len() && spec_get_hash(#[trigger] names[i], a, r, n) == j
                    && table[j] == Some(names[i]);
            assert(names[i] == q);
        }
    }
}

} // verus!
