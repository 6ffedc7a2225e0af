use vstd::prelude::*;

verus! {

/// Why a name could not be resolved.
#[derive(Debug, PartialEq)]
pub enum FindError {
    /// No candidate matched.
    NotFound,
    /// Several candidates matched; their canonical names in declaration order.
    Ambiguous(Vec<String>),
}

/// `q` and `n` are the same letter when case is ignored (`n` is a lower-case name
/// character).
pub open spec fn char_matches(q: char, n: char) -> bool {
    q == n || ('A' <= q <= 'Z' && q as u32 + 32 == n as u32)
}

/// `q` is a prefix of `name`, ignoring the case of `q`.
pub open spec fn is_prefix_ignore_case(q: Seq<char>, name: Seq<char>) -> bool {
    q.len() <= name.len() && forall|i: int| 0 <= i < q.len() ==> char_matches(q[i], name[i])
}

/// `q` is `name`, ignoring the case of `q`.
pub open spec fn eq_ignore_case(q: Seq<char>, name: Seq<char>) -> bool {
    q.len() == name.len() && is_prefix_ignore_case(q, name)
}

/// Indices, in order, of the first `n` names that start with `q`.
pub open spec fn prefix_matches(names: Seq<Seq<char>>, q: Seq<char>, n: nat) -> Seq<usize>
    decreases n,
{
    if n == 0 {
        Seq::empty()
    } else {
        let before = prefix_matches(names, q, (n - 1) as nat);
        if is_prefix_ignore_case(q, names[n - 1]) {
            before.push((n - 1) as usize)
        } else {
            before
        }
    }
}

/// The value index of the first of the first `n` spellings that equals `q`.
pub open spec fn first_exact(spellings: Seq<(Seq<char>, usize)>, q: Seq<char>, n: nat) -> Option<
    usize,
>
    decreases n,
{
    if n == 0 {
        None
    } else {
        match first_exact(spellings, q, (n - 1) as nat) {
            Some(i) => Some(i),
            None => if eq_ignore_case(q, spellings[n - 1].0) {
                Some(spellings[n - 1].1)
            } else {
                None
            },
        }
    }
}

/// `v` holds the names that `found` points at, in order.
pub open spec fn lists_names(v: Seq<String>, names: Seq<Seq<char>>, found: Seq<usize>) -> bool {
    v.len() == found.len() && forall|k: int|
        0 <= k < found.len() ==> #[trigger] v[k]@ == names[found[k] as int]
}

/// `e` reports the unresolved candidates `found`.
pub open spec fn reports(e: FindError, names: Seq<Seq<char>>, found: Seq<usize>) -> bool {
    match e {
        FindError::NotFound => found.len() == 0,
        FindError::Ambiguous(v) => found.len() > 0 && lists_names(v@, names, found),
    }
}

pub open spec fn str_views(names: Seq<&'static str>) -> Seq<Seq<char>> {
    names.map_values(|s: &'static str| s@)
}

pub open spec fn spelling_views(spellings: Seq<(&'static str, usize)>) -> Seq<(Seq<char>, usize)> {
    spellings.map_values(|p: (&'static str, usize)| (p.0@, p.1))
}

/// Resolution of `q` against canonical `names` and exact `spellings` (each a
/// spelling and the index of the value it names): an exact match wins; else the
/// unique canonical name that starts with `q`; else no match or an ambiguity.
pub open spec fn resolve(names: Seq<Seq<char>>, spellings: Seq<(Seq<char>, usize)>, q: Seq<char>) -> Result<
    usize,
    Seq<usize>,
> {
    match first_exact(spellings, q, spellings.len()) {
        Some(i) => Ok(i),
        None => {
            let found = prefix_matches(names, q, names.len());
            if found.len() == 1 {
                Ok(found[0])
            } else {
                Err(found)
            }
        },
    }
}

/// A closed set of values, listed in declaration order.
pub trait PossibleValues: Sized {
    spec fn all_values() -> Seq<Self>;

    fn possible_values() -> (r: Vec<Self>)
        ensures
            r@ == Self::all_values(),
    ;
}

/// Values with a canonical lower-case name each, in declaration order.
pub trait PossibleNames: PossibleValues {
    spec fn canonical_names() -> Seq<Seq<char>>;

    fn possible_names() -> (r: Vec<&'static str>)
        ensures
            str_views(r@) == Self::canonical_names(),
    ;
}

/// Values that can be looked up by name (see `resolve`).
pub trait FindByName: PossibleNames {
    type Error;

    /// The value that `q` resolves to, or the candidates when it resolves to none.
    spec fn by_name(q: Seq<char>) -> Result<Self, Seq<usize>>;

    /// `e` reports the unresolved candidates `found`.
    spec fn is_report(e: Self::Error, found: Seq<usize>) -> bool;

    fn find_by_name(name: &str) -> (r: Result<Self, Self::Error>)
        ensures
            match Self::by_name(name@) {
                Ok(v) => r == Ok::<Self, Self::Error>(v),
                Err(found) => r is Err && Self::is_report(r->Err_0, found),
            },
    ;

    /// Resolves an optional name; `None` stays `None`.
    fn find_by_name_opt(name: Option<&str>) -> (r: Result<Option<Self>, Self::Error>)
        ensures
            name is None ==> r == Ok::<Option<Self>, Self::Error>(None),
            name matches Some(s) ==> match Self::by_name(s@) {
                Ok(v) => r == Ok::<Option<Self>, Self::Error>(Some(v)),
                Err(_) => r is Err,
            },
    {
        match name {
            None => Ok(None),
            Some(s) => match Self::find_by_name(s) {
                Ok(v) => Ok(Some(v)),
                Err(e) => Err(e),
            },
        }
    }
}

fn char_match(q: char, n: char) -> (r: bool)
    ensures
        r == char_matches(q, n),
{
    q == n || ('A' <= q && q <= 'Z' && q as u32 + 32 == n as u32)
}

fn prefix_ignore_case(q: &str, name: &str) -> (r: bool)
    ensures
        r == is_prefix_ignore_case(q@, name@),
{
    let ql = q.unicode_len();
    let nl = name.unicode_len();
    if ql > nl {
        return false;
    }
    let mut i: usize = 0;
    while i < ql
        invariant
            ql == q@.len(),
            nl == name@.len(),
            ql <= nl,
            i <= ql,
            forall|j: int| 0 <= j < i ==> char_matches(q@[j], name@[j]),
        decreases ql - i,
    {
        if !char_match(q.get_char(i), name.get_char(i)) {
            return false;
        }
        i = i + 1;
    }
    true
}

/// Indices of the canonical names that start with `q`, ignoring its case.
pub fn find_items(names: &Vec<&'static str>, q: &str) -> (r: Vec<usize>)
    ensures
        r@ == prefix_matches(str_views(names@), q@, names@.len()),
{
    let mut found: Vec<usize> = Vec::new();
    let mut i: usize = 0;
    while i < names.len()
        invariant
            i <= names@.len(),
            found@ == prefix_matches(str_views(names@), q@, i as nat),
        decreases names@.len() - i,
    {
        if prefix_ignore_case(q, names[i]) {
            found.push(i);
        }
        i = i + 1;
    }
    found
}

fn find_exact(spellings: &Vec<(&'static str, usize)>, q: &str) -> (r: Option<usize>)
    ensures
        r == first_exact(spelling_views(spellings@), q@, spellings@.len()),
{
    let mut i: usize = 0;
    while i < spellings.len()
        invariant
            i <= spellings@.len(),
            first_exact(spelling_views(spellings@), q@, i as nat) is None,
        decreases spellings@.len() - i,
    {
        let (spelling, index) = spellings[i];
        let same = q.unicode_len() == spelling.unicode_len() && prefix_ignore_case(q, spelling);
        if same {
            proof {
                assert(first_exact(spelling_views(spellings@), q@, (i + 1) as nat) == Some(index));
                lemma_first_exact_stays(
                    spelling_views(spellings@),
                    q@,
                    (i + 1) as nat,
                    spellings@.len(),
                );
            }
            return Some(index);
        }
        i = i + 1;
    }
    None
}

/// Resolves `q` (see `resolve`); an ambiguity carries the matching canonical
/// names in order.
pub fn find_by_name(
    names: &Vec<&'static str>,
    spellings: &Vec<(&'static str, usize)>,
    q: &str,
) -> (r: Result<usize, FindError>)
    ensures
        match resolve(str_views(names@), spelling_views(spellings@), q@) {
            Ok(i) => r == Ok::<usize, FindError>(i),
            Err(found) => if found.len() == 0 {
                r == Err::<usize, FindError>(FindError::NotFound)
            } else {
                match r {
                    Err(FindError::Ambiguous(v)) => lists_names(v@, str_views(names@), found),
                    _ => false,
                }
            },
        },
{
    if let Some(i) = find_exact(spellings, q) {
        return Ok(i);
    }
    let found = find_items(names, q);
    if found.len() == 1 {
        Ok(found[0])
    } else if found.len() == 0 {
        Err(FindError::NotFound)
    } else {
        let count = names.len();
        proof {
            lemma_prefix_matches_bounded(str_views(names@), q@, count as nat);
        }
        let mut candidates: Vec<String> = Vec::new();
        let mut k: usize = 0;
        while k < found.len()
            invariant
                k <= found@.len(),
                found@ == prefix_matches(str_views(names@), q@, names@.len()),
                forall|j: int| 0 <= j < found@.len() ==> #[trigger] found@[j] < names@.len(),
                candidates@.len() == k,
                forall|j: int| 0 <= j < k ==> #[trigger] candidates@[j]@ == str_views(names@)[found@[j] as int],
            decreases found@.len() - k,
        {
            candidates.push(String::from_str(names[found[k]]));
            k = k + 1;
        }
        Err(FindError::Ambiguous(candidates))
    }
}

proof fn lemma_prefix_matches_bounded(names: Seq<Seq<char>>, q: Seq<char>, n: nat)
    requires
        n <= usize::MAX,
    ensures
        forall|k: int| 0 <= k < prefix_matches(names, q, n).len() ==> #[trigger] prefix_matches(names, q, n)[k] < n,
    decreases n,
{
    if n > 0 {
        lemma_prefix_matches_bounded(names, q, (n - 1) as nat);
        let before = prefix_matches(names, q, (n - 1) as nat);
        if is_prefix_ignore_case(q, names[n - 1]) {
            assert forall|k: int| 0 <= k < before.len() + 1 implies #[trigger] before.push(
                (n - 1) as usize,
            )[k] < n by {
                if k < before.len() {
                    assert(before[k] < n - 1);
                }
            }
        }
    }
}

proof fn lemma_first_exact_bounded(spellings: Seq<(Seq<char>, usize)>, q: Seq<char>, n: nat, bound: int)
    requires
        n <= spellings.len(),
        forall|k: int| 0 <= k < spellings.len() ==> #[trigger] spellings[k].1 < bound,
    ensures
        first_exact(spellings, q, n) matches Some(i) ==> i < bound,
    decreases n,
{
    if n > 0 {
        lemma_first_exact_bounded(spellings, q, (n - 1) as nat, bound);
    }
}

/// A resolved index points into `names` when every spelling does.
pub proof fn lemma_resolve_in_range(names: Seq<Seq<char>>, spellings: Seq<(Seq<char>, usize)>, q: Seq<char>)
    requires
        names.len() <= usize::MAX,
        forall|k: int| 0 <= k < spellings.len() ==> #[trigger] spellings[k].1 < names.len(),
    ensures
        resolve(names, spellings, q) matches Ok(i) ==> i < names.len(),
{
    lemma_first_exact_bounded(spellings, q, spellings.len(), names.len() as int);
    lemma_prefix_matches_bounded(names, q, names.len());
}

proof fn lemma_first_exact_stays(spellings: Seq<(Seq<char>, usize)>, q: Seq<char>, n: nat, m: nat)
    requires
        n <= m,
        first_exact(spellings, q, n) is Some,
    ensures
        first_exact(spellings, q, m) == first_exact(spellings, q, n),
    decreases m - n,
{
    if n < m {
        lemma_first_exact_stays(spellings, q, n, (m - 1) as nat);
    }
}

} // verus!
