use vstd::prelude::*;

verus! {

/// `s` has an underscore at `p` and nowhere else.
pub open spec fn single_underscore_at(s: Seq<char>, p: int) -> bool {
    &&& 0 <= p < s.len()
    &&& s[p] == '_'
    &&& forall|j: int| 0 <= j < s.len() && j != p ==> #[trigger] s[j] != '_'
}

/// Splits a query key `<element type>_<attribute>` at its one underscore;
/// none where the key has no underscore or more than one.
pub fn parse_config_key(key: &str) -> (r: Option<(&str, &str)>)
    ensures
        match r {
            Some((a, b)) => exists|p: int|
                single_underscore_at(key@, p) && a@ == key@.take(p) && b@ == key@.skip(p + 1),
            None => forall|p: int| !single_underscore_at(key@, p),
        },
{
    let n = key.unicode_len();
    let mut found: Option<usize> = None;
    let mut i: usize = 0;
    while i < n
        invariant
            n == key@.len(),
            0 <= i <= n,
            match found {
                Some(p) => p < i && key@[p as int] == '_' && forall|j: int|
                    0 <= j < i && j != p ==> #[trigger] key@[j] != '_',
                None => forall|j: int| 0 <= j < i ==> #[trigger] key@[j] != '_',
            },
        decreases n - i,
    {
        if key.get_char(i) == '_' {
            match found {
                Some(p) => {
                    assert(key@[p as int] == '_' && key@[i as int] == '_');
                    assert forall|q: int| !single_underscore_at(key@, q) by {
                        if single_underscore_at(key@, q) {
                            if q == p {
                                assert(key@[i as int] != '_');
                            } else {
                                assert(key@[p as int] != '_');
                            }
                        }
                    }
                    return None;
                },
                None => {
                    found = Some(i);
                },
            }
        }
        i += 1;
    }
    match found {
        Some(p) => {
            let a = key.substring_char(0, p);
            let b = key.substring_char(p + 1, n);
            assert(single_underscore_at(key@, p as int));
            assert(a@ =~= key@.take(p as int));
            assert(b@ =~= key@.skip(p + 1));
            Some((a, b))
        },
        None => {
            assert forall|q: int| !single_underscore_at(key@, q) by {
                if single_underscore_at(key@, q) {
                    assert(key@[q] == '_');
                }
            }
            None
        },
    }
}

/// One `key = value` setting of a category's query configuration; `value`
/// is none where the setting is not text.
pub struct QueryEntry {
    pub key: String,
    pub value: Option<String>,
}

/// One clause of a category query: elements of `element_type` whose
/// `attribute` matches one of `values` (a `|`-separated list).
pub struct QueryClause {
    pub element_type: String,
    pub attribute: String,
    pub values: String,
}

/// The meaning of a query clause.
pub struct ClauseView {
    pub element_type: Seq<char>,
    pub attribute: Seq<char>,
    pub values: Seq<char>,
}

impl View for QueryClause {
    type V = ClauseView;

    open spec fn view(&self) -> ClauseView {
        ClauseView { element_type: self.element_type@, attribute: self.attribute@, values: self.values@ }
    }
}

/// The clause that entry `e` gives: none for the description, for a value
/// that is not text or is empty, and for a key that is not
/// `<element type>_<attribute>`.
pub open spec fn clause_of(e: QueryEntry) -> Option<ClauseView> {
    if e.key@ == "description"@ {
        None
    } else {
        match e.value {
            None => None,
            Some(v) => if v@.len() == 0 {
                None
            } else if exists|p: int| single_underscore_at(e.key@, p) {
                let p = choose|p: int| single_underscore_at(e.key@, p);
                Some(
                    ClauseView {
                        element_type: e.key@.take(p),
                        attribute: e.key@.skip(p + 1),
                        values: v@,
                    },
                )
            } else {
                None
            },
        }
    }
}

/// The clauses of `entries`, in order.
pub open spec fn clauses_of(entries: Seq<QueryEntry>) -> Seq<ClauseView>
    decreases entries.len(),
{
    if entries.len() == 0 {
        Seq::empty()
    } else {
        let prev = clauses_of(entries.drop_last());
        match clause_of(entries.last()) {
            Some(c) => prev.push(c),
            None => prev,
        }
    }
}

proof fn lemma_single_underscore_unique(s: Seq<char>, p: int, q: int)
    requires
        single_underscore_at(s, p),
        single_underscore_at(s, q),
    ensures
        p == q,
{
    if p != q {
        assert(s[q] == '_');
    }
}

/// The clause that `e` gives, if any.
fn extract_clause(e: &QueryEntry) -> (r: Option<QueryClause>)
    ensures
        match r {
            Some(c) => clause_of(*e) == Some(c@),
            None => clause_of(*e) is None,
        },
{
    let description = "description".to_owned();
    if e.key == description {
        return None;
    }
    let value = match &e.value {
        Some(v) => v,
        None => {
            return None;
        },
    };
    if value.as_str().is_empty() {
        return None;
    }
    match parse_config_key(e.key.as_str()) {
        Some((element_type, attribute)) => {
            proof {
                let p = choose|p: int|
                    single_underscore_at(e.key@, p) && element_type@ == e.key@.take(p)
                        && attribute@ == e.key@.skip(p + 1);
                let q = choose|q: int| single_underscore_at(e.key@, q);
                lemma_single_underscore_unique(e.key@, p, q);
            }
            Some(
                QueryClause {
                    element_type: element_type.to_owned(),
                    attribute: attribute.to_owned(),
                    values: value.clone(),
                },
            )
        },
        None => None,
    }
}

/// The clauses of a category's query configuration, in order.
pub fn extract_queries_from_config(entries: &Vec<QueryEntry>) -> (r: Vec<QueryClause>)
    ensures
        r@.map_values(|c: QueryClause| c@) == clauses_of(entries@),
{
    let n = entries.len();
    let mut out: Vec<QueryClause> = Vec::new();
    let mut i: usize = 0;
    assert(out@.map_values(|c: QueryClause| c@) =~= clauses_of(entries@.take(0)));
    while i < n
        invariant
            n == entries@.len(),
            0 <= i <= n,
            out@.map_values(|c: QueryClause| c@) == clauses_of(entries@.take(i as int)),
        decreases n - i,
    {
        proof {
            assert(entries@.take(i + 1).drop_last() =~= entries@.take(i as int));
        }
        match extract_clause(&entries[i]) {
            Some(c) => {
                let ghost before = out@;
                out.push(c);
                assert(out@.map_values(|c: QueryClause| c@) =~= before.map_values(
                    |c: QueryClause| c@,
                ).push(c@));
            },
            None => {},
        }
        i += 1;
    }
    assert(entries@.take(n as int) =~= entries@);
    out
}

} // verus!
