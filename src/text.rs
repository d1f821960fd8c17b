use vstd::prelude::*;

verus! {

/// What `str::to_lowercase` makes of a text.
pub uninterp spec fn lower_of(s: Seq<char>) -> Seq<char>;

/// Relies on `str::to_lowercase`: the result depends on the characters alone.
#[verifier::external_body]
pub(crate) fn lowercase(s: &str) -> (r: String)
    ensures
        r@ == lower_of(s@),
{
    s.to_lowercase()
}

/// `p` occurs in `s` as a run of consecutive characters.
pub open spec fn is_substring(p: Seq<char>, s: Seq<char>) -> bool {
    exists|i: int| 0 <= i <= s.len() - p.len() && #[trigger] s.subrange(i, i + p.len()) == p
}

/// Relies on `str::contains` with a `&str` pattern: true exactly where the
/// pattern matches a sub-slice of the text.
#[verifier::external_body]
pub(crate) fn contains(s: &str, p: &str) -> (r: bool)
    ensures
        r == is_substring(p@, s@),
{
    s.contains(p)
}

/// Relies on `str::starts_with` with a `&str` pattern: true exactly where
/// the pattern matches a prefix of the text.
#[verifier::external_body]
pub(crate) fn starts_with(s: &str, p: &str) -> (r: bool)
    ensures
        r == p@.is_prefix_of(s@),
{
    s.starts_with(p)
}

/// The character sequences of a list of strings.
pub open spec fn texts(v: Seq<String>) -> Seq<Seq<char>> {
    v.map_values(|s: String| s@)
}

/// Some pattern of `patterns` occurs in `name`.
pub open spec fn contains_any(name: Seq<char>, patterns: Seq<Seq<char>>) -> bool {
    exists|k: int| 0 <= k < patterns.len() && is_substring(#[trigger] patterns[k], name)
}

/// Whether any of `patterns` occurs in `name`.
pub fn name_contains_any(name: &str, patterns: &Vec<String>) -> (r: bool)
    ensures
        r == contains_any(name@, texts(patterns@)),
{
    let n = patterns.len();
    let mut k: usize = 0;
    while k < n
        invariant
            n == patterns@.len(),
            0 <= k <= n,
            forall|j: int| 0 <= j < k ==> !is_substring(#[trigger] texts(patterns@)[j], name@),
        decreases n - k,
    {
        if contains(name, patterns[k].as_str()) {
            assert(texts(patterns@)[k as int] == patterns@[k as int]@);
            return true;
        }
        k += 1;
    }
    false
}

/// Whether `v` is one of `list`.
pub fn list_contains(list: &Vec<String>, v: &str) -> (r: bool)
    ensures
        r == texts(list@).contains(v@),
{
    let wanted = v.to_owned();
    let n = list.len();
    let mut k: usize = 0;
    while k < n
        invariant
            n == list@.len(),
            0 <= k <= n,
            wanted@ == v@,
            forall|j: int| 0 <= j < k ==> #[trigger] texts(list@)[j] != v@,
        decreases n - k,
    {
        if list[k] == wanted {
            assert(texts(list@)[k as int] == v@);
            return true;
        }
        k += 1;
    }
    false
}

/// A copy of `list`.
pub fn copy_list(list: &Vec<String>) -> (r: Vec<String>)
    ensures
        texts(r@) == texts(list@),
{
    let n = list.len();
    let mut out: Vec<String> = Vec::new();
    let mut k: usize = 0;
    while k < n
        invariant
            n == list@.len(),
            0 <= k <= n,
            out@.len() == k,
            forall|j: int| 0 <= j < k ==> (#[trigger] out@[j])@ == list@[j]@,
        decreases n - k,
    {
        let c = list[k].clone();
        out.push(c);
        k += 1;
    }
    assert(texts(out@) =~= texts(list@));
    out
}

} // verus!
