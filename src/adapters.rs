use vstd::prelude::*;
use vstd::string::*;
use crate::error::ModelError;

verus! {

/// `needle` occurs in `hay` at position `i`.
pub open spec fn occurs_at(hay: Seq<char>, needle: Seq<char>, i: int) -> bool {
    0 <= i && i + needle.len() <= hay.len() && hay.subrange(i, i + needle.len()) == needle
}

/// `needle` occurs somewhere in `hay`.
pub open spec fn occurs_in(hay: Seq<char>, needle: Seq<char>) -> bool {
    exists|i: int| occurs_at(hay, needle, i)
}

/// The first adapter, from index `i` on, whose name occurs in the file name `name`.
pub open spec fn match_from(name: Seq<char>, adapters: Seq<Seq<char>>, i: nat) -> Option<nat>
    decreases adapters.len() - i,
{
    if i >= adapters.len() {
        None
    } else if occurs_in(name, adapters[i as int]) {
        Some(i)
    } else {
        match_from(name, adapters, i + 1)
    }
}

/// The files among the first `n` of the listing that belong to adapter `a`: those
/// whose first matching adapter is `a`, in listing order.
pub open spec fn files_of(listing: Seq<Seq<char>>, adapters: Seq<Seq<char>>, a: nat, n: nat) -> Seq<usize>
    decreases n,
{
    if n == 0 {
        seq![]
    } else {
        let before = files_of(listing, adapters, a, (n - 1) as nat);
        if match_from(listing[n - 1], adapters, 0) == Some(a) { before.push((n - 1) as usize) } else { before }
    }
}

/// One file of an adapter: the adapter's index in the ordering, the file's index in
/// the listing, and whether it holds weights (rather than the adapter's config).
#[derive(Debug, Clone, Copy, PartialEq, Eq, Structural)]
pub struct AdapterFile {
    pub adapter: usize,
    pub file: usize,
    pub is_weights: bool,
}

/// Whether a file name ends with `.safetensors`.
pub open spec fn is_weights_name(name: Seq<char>) -> bool {
    name.len() >= ".safetensors"@.len()
        && name.subrange(name.len() - ".safetensors"@.len(), name.len() as int) == ".safetensors"@
}

/// The files of the first `m` adapters, adapter by adapter in ordering order, each
/// adapter's files in listing order.
pub open spec fn adapter_plan(listing: Seq<Seq<char>>, adapters: Seq<Seq<char>>, m: nat) -> Seq<AdapterFile>
    decreases m,
{
    if m == 0 {
        seq![]
    } else {
        adapter_plan(listing, adapters, (m - 1) as nat) + files_of(listing, adapters, (m - 1) as nat, listing.len()).map_values(
            |f: usize| AdapterFile { adapter: (m - 1) as usize, file: f, is_weights: is_weights_name(listing[f as int]) })
    }
}

/// The names in a list of strings, as character sequences.
pub open spec fn names(v: Seq<String>) -> Seq<Seq<char>> {
    Seq::new(v.len(), |i: int| v[i]@)
}

/// Whether `needle` occurs in `hay`.
pub fn str_contains(hay: &str, needle: &str) -> (r: bool)
    ensures
        r == occurs_in(hay@, needle@),
{
    let h = hay.unicode_len();
    let n = needle.unicode_len();
    if n > h {
        assert forall|i: int| !occurs_at(hay@, needle@, i) by {}
        return false;
    }
    let mut i: usize = 0;
    while i <= h - n
        invariant
            h == hay@.len(),
            n == needle@.len(),
            n <= h,
            i <= h - n + 1,
            forall|j: int| 0 <= j < i ==> !occurs_at(hay@, needle@, j),
        decreases h - n + 1 - i,
    {
        let mut k: usize = 0;
        let mut same = true;
        while k < n
            invariant
                k <= n,
                i + n <= h,
                h == hay@.len(),
                n == needle@.len(),
                same == forall|t: int| 0 <= t < k ==> hay@[i + t] == needle@[t],
            decreases n - k,
        {
            if hay.get_char(i + k) != needle.get_char(k) {
                same = false;
            }
            k += 1;
        }
        if same {
            assert(hay@.subrange(i as int, i + n) =~= needle@);
            assert(occurs_at(hay@, needle@, i as int));
            return true;
        }
        assert(!occurs_at(hay@, needle@, i as int)) by {
            if occurs_at(hay@, needle@, i as int) {
                assert forall|t: int| 0 <= t < n implies hay@[i + t] == needle@[t] by {
                    assert(hay@.subrange(i as int, i + n)[t] == hay@[i + t]);
                }
            }
        }
        i += 1;
    }
    false
}

/// Whether a file name ends with `.safetensors`.
pub fn is_weights_file(name: &str) -> (r: bool)
    ensures
        r == is_weights_name(name@),
{
    let suffix = ".safetensors";
    proof {
        reveal_strlit(".safetensors");
    }
    assert(suffix@ == ".safetensors"@);
    let s = suffix.unicode_len();
    let n = name.unicode_len();
    if n < s {
        return false;
    }
    let mut k: usize = 0;
    while k < s
        invariant
            k <= s,
            s <= n,
            n == name@.len(),
            s == suffix@.len(),
            suffix@ == ".safetensors"@,
            forall|t: int| 0 <= t < k ==> name@[n - s + t] == suffix@[t],
        decreases s - k,
    {
        if name.get_char(n - s + k) != suffix.get_char(k) {
            assert(name@.subrange(n - s, n as int)[k as int] != suffix@[k as int]);
            assert(name@.subrange(n - s, n as int) != ".safetensors"@);
            return false;
        }
        k += 1;
    }
    assert(name@.subrange(n - s, n as int) =~= suffix@);
    true
}

/// The first adapter whose name occurs in `name`.
fn first_match(name: &String, adapters: &Vec<String>) -> (r: Option<usize>)
    ensures
        r matches Some(a) ==> match_from(name@, names(adapters@), 0) == Some(a as nat),
        r is None ==> match_from(name@, names(adapters@), 0) is None,
{
    let ghost ad = names(adapters@);
    let mut i: usize = adapters.len();
    let mut found: Option<usize> = None;
    while i > 0
        invariant
            i <= adapters@.len(),
            ad == names(adapters@),
            found matches Some(a) ==> match_from(name@, ad, i as nat) == Some(a as nat),
            found is None ==> match_from(name@, ad, i as nat) is None,
        decreases i,
    {
        i -= 1;
        assert(ad[i as int] == adapters@[i as int]@);
        if str_contains(name.as_str(), adapters[i].as_str()) {
            found = Some(i);
        }
    }
    found
}

/// Sorts the files of an adapter repository by the adapter ordering: each file
/// belongs to the first adapter whose name it contains, and the result lists the
/// files of every adapter, adapter by adapter, marking which hold weights. An
/// ordering without adapters, or an adapter with no file, is a configuration error.
pub fn match_adapter_files(listing: &Vec<String>, adapters: &Vec<String>) -> (r: Result<Vec<AdapterFile>, ModelError>)
    requires
        listing@.len() <= usize::MAX,
    ensures
        r is Err <==> (adapters@.len() == 0 || exists|a: int| 0 <= a < adapters@.len()
            && #[trigger] files_of(names(listing@), names(adapters@), a as nat, listing@.len()).len() == 0),
        r matches Err(e) ==> e == ModelError::Config,
        r matches Ok(v) ==> v@ == adapter_plan(names(listing@), names(adapters@), adapters@.len()),
{
    let ghost ls = names(listing@);
    let ghost ad = names(adapters@);
    if adapters.len() == 0 {
        return Err(ModelError::Config);
    }
    let mut owner: Vec<Option<usize>> = Vec::with_capacity(listing.len());
    let mut f: usize = 0;
    while f < listing.len()
        invariant
            f <= listing@.len(),
            ls == names(listing@),
            ad == names(adapters@),
            owner@.len() == f,
            forall|t: int| 0 <= t < f ==> match #[trigger] owner@[t] {
                Some(a) => match_from(ls[t], ad, 0) == Some(a as nat),
                None => match_from(ls[t], ad, 0) is None,
            },
        decreases listing@.len() - f,
    {
        assert(ls[f as int] == listing@[f as int]@);
        owner.push(first_match(&listing[f], adapters));
        f += 1;
    }
    let mut out: Vec<AdapterFile> = Vec::new();
    let mut a: usize = 0;
    while a < adapters.len()
        invariant
            a <= adapters@.len(),
            ls == names(listing@),
            ad == names(adapters@),
            owner@.len() == listing@.len(),
            forall|t: int| 0 <= t < listing@.len() ==> match #[trigger] owner@[t] {
                Some(x) => match_from(ls[t], ad, 0) == Some(x as nat),
                None => match_from(ls[t], ad, 0) is None,
            },
            forall|x: int| 0 <= x < a ==> #[trigger] files_of(ls, ad, x as nat, listing@.len()).len() > 0,
            out@ == adapter_plan(ls, ad, a as nat),
        decreases adapters@.len() - a,
    {
        let ghost before = out@;
        let mut g: usize = 0;
        let mut count: usize = 0;
        while g < listing.len()
            invariant
                g <= listing@.len(),
                ls == names(listing@),
                ad == names(adapters@),
                owner@.len() == listing@.len(),
                a < adapters@.len(),
                forall|t: int| 0 <= t < listing@.len() ==> match #[trigger] owner@[t] {
                    Some(x) => match_from(ls[t], ad, 0) == Some(x as nat),
                    None => match_from(ls[t], ad, 0) is None,
                },
                count == files_of(ls, ad, a as nat, g as nat).len(),
                count <= g,
                out@ == before + files_of(ls, ad, a as nat, g as nat).map_values(
                    |f: usize| AdapterFile { adapter: a, file: f, is_weights: is_weights_name(ls[f as int]) }),
            decreases listing@.len() - g,
        {
            let ghost prev_files = files_of(ls, ad, a as nat, g as nat);
            if owner[g] == Some(a) {
                assert(ls[g as int] == listing@[g as int]@);
                let w = is_weights_file(listing[g].as_str());
                out.push(AdapterFile { adapter: a, file: g, is_weights: w });
                count += 1;
                assert(files_of(ls, ad, a as nat, (g + 1) as nat) == prev_files.push(g));
                assert(out@ =~= before + files_of(ls, ad, a as nat, (g + 1) as nat).map_values(
                    |f: usize| AdapterFile { adapter: a, file: f, is_weights: is_weights_name(ls[f as int]) }));
            } else {
                assert(match_from(ls[g as int], ad, 0) != Some(a as nat));
                assert(files_of(ls, ad, a as nat, (g + 1) as nat) == prev_files);
            }
            g += 1;
        }
        if count == 0 {
            assert(g == listing@.len());
            assert(files_of(ls, ad, a as nat, listing@.len()).len() == 0);
            let ghost wa: int = a as int;
            assert(files_of(names(listing@), names(adapters@), wa as nat, listing@.len()).len() == 0);
            return Err(ModelError::Config);
        }
        a += 1;
    }
    Ok(out)
}

} // verus!
