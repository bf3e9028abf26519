//! Names in the destination: sidecar names and the `_copy<N>` alternates
//! chosen when a rename resolves a conflict.

use vstd::prelude::*;
use vstd::relations::injective_on;
use vstd::set_lib::{lemma_int_range, lemma_len_subset, lemma_map_size, set_int_range};
use vstd::string::*;
use crate::text::{
    chars_of, decimal, decimal_string, find_last, last_index_of, lemma_decimal_injective,
    lemma_last_index_of_bounds,
};

verus! {

/// The suffix that marks a sidecar file.
pub open spec fn meta_suffix() -> Seq<char> {
    seq!['.', 'm', 'e', 't', 'a']
}

/// The name of the sidecar that accompanies `name`.
pub open spec fn sidecar_name(name: Seq<char>) -> Seq<char> {
    name + meta_suffix()
}

/// The marker placed between a name's stem and the copy number.
pub open spec fn copy_marker() -> Seq<char> {
    seq!['_', 'c', 'o', 'p', 'y']
}

/// The part of `name` before its last `.`, or all of it when it has none.
pub open spec fn stem_of(name: Seq<char>) -> Seq<char> {
    let i = last_index_of(name, '.');
    if i >= 0 {
        name.subrange(0, i)
    } else {
        name
    }
}

/// The part of `name` from its last `.` on, or nothing when it has none.
pub open spec fn extension_of(name: Seq<char>) -> Seq<char> {
    let i = last_index_of(name, '.');
    if i >= 0 {
        name.subrange(i, name.len() as int)
    } else {
        Seq::empty()
    }
}

/// The `k`-th alternate of `name`: `Foo.txt` becomes `Foo_copy<k>.txt`.
pub open spec fn copy_name(name: Seq<char>, k: nat) -> Seq<char> {
    stem_of(name) + copy_marker() + decimal(k) + extension_of(name)
}

/// The texts of a list of strings.
pub open spec fn views_of(v: Seq<String>) -> Seq<Seq<char>> {
    v.map_values(|s: String| s@)
}

/// Whether `names` holds `x`.
pub open spec fn listed(names: Seq<Seq<char>>, x: Seq<char>) -> bool {
    names.contains(x)
}

/// `k` is the lowest copy number whose sidecar is not among `names`.
pub open spec fn lowest_free_copy(name: Seq<char>, names: Seq<Seq<char>>, k: nat) -> bool {
    &&& k >= 1
    &&& !listed(names, sidecar_name(copy_name(name, k)))
    &&& forall|j: nat| 1 <= j < k ==> listed(names, #[trigger] sidecar_name(copy_name(name, j)))
}

/// The alternate of `name` with the lowest copy number whose sidecar is not
/// among `names`.
pub open spec fn unique_copy_name(name: Seq<char>, names: Seq<Seq<char>>) -> Seq<char> {
    copy_name(name, choose|k: nat| lowest_free_copy(name, names, k))
}

proof fn lemma_lowest_free_copy_unique(name: Seq<char>, names: Seq<Seq<char>>, a: nat, b: nat)
    requires
        lowest_free_copy(name, names, a),
        lowest_free_copy(name, names, b),
    ensures
        a == b,
{
    if a < b {
        assert(listed(names, sidecar_name(copy_name(name, a))));
    } else if b < a {
        assert(listed(names, sidecar_name(copy_name(name, b))));
    }
}

/// The alternate with copy number `k` is the unique one when `k` is the
/// lowest free number.
pub proof fn lemma_unique_copy_name(name: Seq<char>, names: Seq<Seq<char>>, k: nat)
    requires
        lowest_free_copy(name, names, k),
    ensures
        unique_copy_name(name, names) == copy_name(name, k),
{
    let c = choose|c: nat| lowest_free_copy(name, names, c);
    lemma_lowest_free_copy_unique(name, names, k, c);
}

proof fn lemma_free_copy_from(name: Seq<char>, names: Seq<Seq<char>>, j: nat)
    requires
        1 <= j <= names.len() + 1,
        forall|i: nat| 1 <= i < j ==> listed(names, #[trigger] sidecar_name(copy_name(name, i))),
    ensures
        exists|k: nat| lowest_free_copy(name, names, k),
    decreases names.len() + 1 - j,
{
    if listed(names, sidecar_name(copy_name(name, j))) {
        lemma_taken_copies_bounded(name, names, j);
        lemma_free_copy_from(name, names, j + 1);
    } else {
        assert(lowest_free_copy(name, names, j));
    }
}

/// Every name has a lowest free alternate, whatever the listing.
pub proof fn lemma_lowest_free_copy_exists(name: Seq<char>, names: Seq<Seq<char>>)
    ensures
        lowest_free_copy(name, names, choose|k: nat| lowest_free_copy(name, names, k)),
{
    lemma_free_copy_from(name, names, 1);
}

proof fn lemma_copy_name_injective(name: Seq<char>, a: nat, b: nat)
    requires
        sidecar_name(copy_name(name, a)) == sidecar_name(copy_name(name, b)),
    ensures
        a == b,
{
    let x = copy_name(name, a);
    let y = copy_name(name, b);
    assert(sidecar_name(x).len() == x.len() + 5);
    assert(sidecar_name(y).len() == y.len() + 5);
    assert(x.len() == y.len());
    assert(x =~= sidecar_name(x).subrange(0, x.len() as int));
    assert(y =~= sidecar_name(y).subrange(0, y.len() as int));
    assert(x == y);
    let p: int = stem_of(name).len() as int + 5;
    assert(decimal(a) =~= x.subrange(p, p + decimal(a).len() as int));
    assert(decimal(b) =~= y.subrange(p, p + decimal(b).len() as int));
    assert(decimal(a).len() == decimal(b).len());
    lemma_decimal_injective(a, b);
}

/// At most `names.len()` copy numbers can be taken.
proof fn lemma_taken_copies_bounded(name: Seq<char>, names: Seq<Seq<char>>, c: nat)
    requires
        forall|j: nat| 1 <= j <= c ==> listed(names, #[trigger] sidecar_name(copy_name(name, j))),
    ensures
        c <= names.len(),
{
    let f = |j: int| sidecar_name(copy_name(name, j as nat));
    let dom = set_int_range(1, c as int + 1);
    lemma_int_range(1, c as int + 1);
    assert(injective_on(f, dom)) by {
        assert forall|x1: int, x2: int|
            dom.contains(x1) && dom.contains(x2) && #[trigger] f(x1) == #[trigger] f(x2) implies x1
            == x2 by {
            lemma_copy_name_injective(name, x1 as nat, x2 as nat);
        }
    }
    let img = dom.map(f);
    lemma_map_size(dom, img, f);
    let all = names.to_set();
    assert(img.subset_of(all)) by {
        assert forall|y: Seq<char>| img.contains(y) implies all.contains(y) by {
            let j = choose|j: int| dom.contains(j) && f(j) == y;
            assert(listed(names, sidecar_name(copy_name(name, j as nat))));
        }
    }
    names.lemma_cardinality_of_set();
    lemma_len_subset(img, all);
}

/// Whether some entry of `names` equals `x`.
pub fn contains_name(names: &Vec<String>, x: &String) -> (r: bool)
    ensures
        r == listed(views_of(names@), x@),
{
    let mut i: usize = 0;
    while i < names.len()
        invariant
            i <= names@.len(),
            forall|j: int| 0 <= j < i ==> names@[j]@ != x@,
        decreases names@.len() - i,
    {
        if names[i] == *x {
            assert(views_of(names@)[i as int] == x@);
            return true;
        }
        i = i + 1;
    }
    assert forall|j: int| 0 <= j < views_of(names@).len() implies views_of(names@)[j] != x@ by {
        assert(names@[j]@ != x@);
    }
    false
}

/// The sidecar name of `name`.
pub fn sidecar_of(name: &str) -> (r: String)
    ensures
        r@ == sidecar_name(name@),
{
    proof {
        reveal_strlit(".meta");
    }
    let r = String::from_str(name).concat(".meta");
    assert(".meta"@ =~= meta_suffix());
    r
}

/// The `k`-th alternate of `name`.
pub fn copy_name_of(name: &str, k: u128) -> (r: String)
    ensures
        r@ == copy_name(name@, k as nat),
{
    proof {
        reveal_strlit("_copy");
        lemma_last_index_of_bounds(name@, '.');
    }
    assert("_copy"@ =~= copy_marker());
    let chars = chars_of(name);
    let digits = decimal_string(k);
    match find_last(&chars, '.') {
        Some(i) => {
            let mut r = String::from_str(name.substring_char(0, i));
            r.append("_copy");
            r.append(digits.as_str());
            r.append(name.substring_char(i, chars.len()));
            r
        },
        None => {
            let mut r = String::from_str(name);
            r.append("_copy");
            r.append(digits.as_str());
            assert(extension_of(name@) =~= Seq::<char>::empty());
            assert(r@ =~= copy_name(name@, k as nat));
            r
        },
    }
}

/// Picks the alternate `<stem>_copy<N><ext>` of `file_name` with the
/// lowest `N >= 1` whose sidecar is not among `taken`, the names present in
/// the destination directory. The same name then serves the sidecar and the
/// payload.
pub fn find_unique_name(file_name: &str, taken: &Vec<String>) -> (r: String)
    ensures
        r@ == unique_copy_name(file_name@, views_of(taken@)),
{
    let n = taken.len();
    let mut count: u128 = 1;
    loop
        invariant
            n == taken@.len(),
            1 <= count <= taken@.len() + 1,
            forall|j: nat|
                1 <= j < count ==> listed(
                    views_of(taken@),
                    #[trigger] sidecar_name(copy_name(file_name@, j)),
                ),
        decreases taken@.len() + 1 - count,
    {
        let candidate = copy_name_of(file_name, count);
        let meta = sidecar_of(candidate.as_str());
        if !contains_name(taken, &meta) {
            assert(lowest_free_copy(file_name@, views_of(taken@), count as nat));
            proof {
                lemma_unique_copy_name(file_name@, views_of(taken@), count as nat);
            }
            return candidate;
        }
        proof {
            lemma_taken_copies_bounded(file_name@, views_of(taken@), count as nat);
        }
        count = count + 1;
    }
}

} // verus!
