use vstd::prelude::*;

verus! {

broadcast use vstd::string::group_string_axioms;

/// Collects the characters of `s` into a vector.
pub fn chars_of(s: &str) -> (v: Vec<char>)
    ensures
        v@ == s@,
{
    let mut v: Vec<char> = Vec::new();
    for c in it: s.chars()
        invariant
            it.seq() == s@,
            v@ == it.seq().take(it.index() as int),
    {
        v.push(c);
    }
    v
}

/// Whether two strings hold the same characters.
pub fn str_eq(a: &str, b: &str) -> (r: bool)
    ensures
        r == (a@ == b@),
{
    let x: String = a.to_owned();
    let y: String = b.to_owned();
    x == y
}

/// `n` occurs in `h` starting at position `i`.
pub open spec fn occurs_at(h: Seq<char>, n: Seq<char>, i: int) -> bool {
    &&& 0 <= i
    &&& i + n.len() <= h.len()
    &&& h.subrange(i, i + n.len()) == n
}

/// `n` occurs somewhere in `h`.
pub open spec fn contains_text(h: Seq<char>, n: Seq<char>) -> bool {
    exists|i: int| occurs_at(h, n, i)
}

/// `i` is the first position at or after `from` where `n` occurs in `h`.
pub open spec fn first_at(h: Seq<char>, n: Seq<char>, from: int, i: int) -> bool {
    &&& from <= i
    &&& occurs_at(h, n, i)
    &&& forall|j: int| from <= j < i ==> !occurs_at(h, n, j)
}

/// The first position at or after `from` where `n` occurs in `h`.
pub open spec fn first_occurrence(h: Seq<char>, n: Seq<char>, from: int) -> Option<int> {
    if exists|i: int| first_at(h, n, from, i) {
        Some(choose|i: int| first_at(h, n, from, i))
    } else {
        None
    }
}

/// There is only one first occurrence.
pub proof fn lemma_first_at_unique(h: Seq<char>, n: Seq<char>, from: int, i: int)
    requires
        first_at(h, n, from, i),
    ensures
        first_occurrence(h, n, from) == Some(i),
{
    let c: int = choose|c: int| first_at(h, n, from, c);
    if c < i {
        assert(!occurs_at(h, n, c));
    } else if i < c {
        assert(!occurs_at(h, n, i));
    }
}

/// Whether `n` occurs in `h` at position `i`.
fn matches_at(h: &Vec<char>, n: &Vec<char>, i: usize) -> (r: bool)
    requires
        i <= h.len(),
    ensures
        r == occurs_at(h@, n@, i as int),
{
    if n.len() > h.len() - i {
        return false;
    }
    let mut j: usize = 0;
    while j < n.len()
        invariant
            j <= n.len(),
            i + n.len() <= h.len(),
            forall|q: int| 0 <= q < j ==> h@[i + q] == n@[q],
        decreases n.len() - j,
    {
        if h[i + j] != n[j] {
            assert(h@.subrange(i as int, i + n.len())[j as int] != n@[j as int]);
            return false;
        }
        j = j + 1;
    }
    assert(h@.subrange(i as int, i + n.len()) =~= n@);
    true
}

/// The first position at or after `from` where `n` occurs in `h`.
pub fn find_from(h: &Vec<char>, n: &Vec<char>, from: usize) -> (r: Option<usize>)
    ensures
        match r {
            Some(i) => first_at(h@, n@, from as int, i as int),
            None => forall|j: int| from <= j ==> !occurs_at(h@, n@, j),
        },
        r matches Some(i) ==> first_occurrence(h@, n@, from as int) == Some(i as int),
        r is None ==> first_occurrence(h@, n@, from as int) is None,
{
    if from > h.len() {
        return None;
    }
    let mut i: usize = from;
    while i < h.len()
        invariant
            from <= i <= h.len(),
            forall|j: int| from <= j < i ==> !occurs_at(h@, n@, j),
        decreases h.len() - i,
    {
        if matches_at(h, n, i) {
            proof {
                lemma_first_at_unique(h@, n@, from as int, i as int);
            }
            return Some(i);
        }
        i = i + 1;
    }
    if matches_at(h, n, i) {
        proof {
            lemma_first_at_unique(h@, n@, from as int, i as int);
        }
        return Some(i);
    }
    None
}

/// Whether `n` occurs in `h`.
pub fn contains_str(h: &str, n: &str) -> (r: bool)
    ensures
        r == contains_text(h@, n@),
{
    let hv = chars_of(h);
    let nv = chars_of(n);
    match find_from(&hv, &nv, 0) {
        Some(_) => true,
        None => {
            assert forall|j: int| !occurs_at(h@, n@, j) by {
                if j >= 0 {
                    assert(!occurs_at(hv@, nv@, j));
                }
            }
            false
        },
    }
}

/// What `str::to_lowercase` returns for a string holding these characters.
pub uninterp spec fn lowercase(s: Seq<char>) -> Seq<char>;

/// Calls `str::to_lowercase`; its result is named `lowercase` of the
/// argument's characters (the full Unicode lowercase mapping).
#[verifier::external_body]
pub fn to_lowercase(s: &str) -> (r: String)
    ensures
        r@ == lowercase(s@),
{
    s.to_lowercase()
}

/// Every character of `s` is ASCII.
pub open spec fn is_ascii_text(s: Seq<char>) -> bool {
    forall|i: int| 0 <= i < s.len() ==> (#[trigger] s[i] as u32) < 128
}

/// The lowercase of an ASCII character: `A`..`Z` become `a`..`z`, every
/// other character stays.
pub open spec fn ascii_lower(c: char) -> char {
    if 'A' <= c <= 'Z' {
        ((c as u8) + 32u8) as char
    } else {
        c
    }
}

/// The characters of `s` lowercased as `str::to_lowercase` does: for ASCII
/// text, letter by letter; otherwise by the full Unicode mapping.
pub open spec fn fold_case(s: Seq<char>) -> Seq<char> {
    if is_ascii_text(s) {
        s.map_values(|c: char| ascii_lower(c))
    } else {
        lowercase(s)
    }
}

/// The characters of `s`, lowercased.
pub fn fold_case_chars(s: &str) -> (r: Vec<char>)
    ensures
        r@ == fold_case(s@),
{
    let v = chars_of(s);
    let mut ascii = true;
    let mut i: usize = 0;
    while i < v.len()
        invariant
            i <= v.len(),
            ascii == forall|j: int| 0 <= j < i ==> (#[trigger] v@[j] as u32) < 128,
        decreases v.len() - i,
    {
        if (v[i] as u32) >= 128 {
            ascii = false;
        }
        i = i + 1;
    }
    if !ascii {
        let lowered = to_lowercase(s);
        return chars_of(lowered.as_str());
    }
    let mut r: Vec<char> = Vec::new();
    let mut j: usize = 0;
    while j < v.len()
        invariant
            j <= v.len(),
            v@ == s@,
            r.len() == j,
            forall|q: int| 0 <= q < j ==> #[trigger] r@[q] == ascii_lower(v@[q]),
        decreases v.len() - j,
    {
        let c = v[j];
        let lower = if 'A' <= c && c <= 'Z' {
            ((c as u8) + 32u8) as char
        } else {
            c
        };
        r.push(lower);
        j = j + 1;
    }
    assert(r@ =~= s@.map_values(|c: char| ascii_lower(c)));
    r
}

/// Wherever `n` stands in `h`, at any position, `h` contains `n`; and `h`
/// contains `n` only where it stands at some position.
pub proof fn law_contains_anywhere(h: Seq<char>, n: Seq<char>, i: int)
    ensures
        0 <= i && i + n.len() <= h.len() && h.subrange(i, i + n.len()) == n ==> contains_text(h, n),
        contains_text(h, n) <==> exists|j: int|
            0 <= j && j + n.len() <= h.len() && #[trigger] h.subrange(j, j + n.len()) == n,
{
    if 0 <= i && i + n.len() <= h.len() && h.subrange(i, i + n.len()) == n {
        assert(occurs_at(h, n, i));
    }
    if contains_text(h, n) {
        let j: int = choose|j: int| occurs_at(h, n, j);
        assert(h.subrange(j, j + n.len()) == n);
    }
    if exists|j: int| 0 <= j && j + n.len() <= h.len() && #[trigger] h.subrange(j, j + n.len()) == n {
        let j: int = choose|j: int| 0 <= j && j + n.len() <= h.len() && #[trigger] h.subrange(j, j + n.len()) == n;
        assert(occurs_at(h, n, j));
    }
}

/// The first occurrence at or after `from` is where `n` stands, and `n`
/// stands nowhere between `from` and it.
pub proof fn law_first_occurrence(h: Seq<char>, n: Seq<char>, from: int)
    ensures
        first_occurrence(h, n, from) matches Some(i) ==> from <= i && i + n.len() <= h.len() && h.subrange(
            i,
            i + n.len(),
        ) == n && forall|j: int|
            0 <= j && from <= j < i && j + n.len() <= h.len() ==> #[trigger] h.subrange(j, j + n.len()) != n,
        first_occurrence(h, n, from) is None ==> forall|j: int|
            0 <= j && from <= j && j + n.len() <= h.len() ==> #[trigger] h.subrange(j, j + n.len()) != n,
{
    if first_occurrence(h, n, from) is None {
        assert forall|j: int| 0 <= j && from <= j && j + n.len() <= h.len() implies #[trigger] h.subrange(j, j + n.len()) != n by {
            if h.subrange(j, j + n.len()) == n {
                assert(occurs_at(h, n, j));
                // the first occurrence at or after `from` exists: take the least one
                lemma_some_first(h, n, from, j);
            }
        }
    } else {
        let i = first_occurrence(h, n, from)->0;
        assert forall|j: int| 0 <= j && from <= j < i && j + n.len() <= h.len() implies #[trigger] h.subrange(j, j + n.len())
            != n by {
            assert(first_at(h, n, from, i));
            assert(!occurs_at(h, n, j));
        }
    }
}

/// Where `n` stands at `j` at or after `from`, there is a first occurrence.
proof fn lemma_some_first(h: Seq<char>, n: Seq<char>, from: int, j: int)
    requires
        from <= j,
        occurs_at(h, n, j),
    ensures
        first_occurrence(h, n, from) is Some,
    decreases j - from,
{
    if exists|k: int| from <= k < j && occurs_at(h, n, k) {
        let k: int = choose|k: int| from <= k < j && occurs_at(h, n, k);
        lemma_some_first(h, n, from, k);
    } else {
        assert(first_at(h, n, from, j));
    }
}

/// ASCII text keeps its length when lowercased, and each character becomes
/// its lowercase: `A`..`Z` move to `a`..`z`, everything else stays.
pub proof fn law_fold_case_ascii(s: Seq<char>)
    requires
        forall|i: int| 0 <= i < s.len() ==> (#[trigger] s[i] as u32) < 128,
    ensures
        fold_case(s).len() == s.len(),
        forall|i: int|
            0 <= i < s.len() ==> (#[trigger] fold_case(s)[i] as int) == if 65 <= (s[i] as u32) <= 90 {
                (s[i] as int) + 32
            } else {
                s[i] as int
            },
{
    assert forall|i: int| 0 <= i < s.len() implies (#[trigger] fold_case(s)[i] as int) == if 65 <= (s[i] as u32)
        <= 90 {
        (s[i] as int) + 32
    } else {
        s[i] as int
    } by {
        let c = s[i];
        assert(fold_case(s)[i] == ascii_lower(c));
        if 'A' <= c <= 'Z' {
            assert((((c as u8) + 32u8) as char) as int == (c as int) + 32);
        }
    }
}

} // verus!
