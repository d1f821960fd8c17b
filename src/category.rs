use vstd::prelude::*;

verus! {

/// The canonical facility categories.
#[derive(Clone, Copy, Debug, PartialEq, Eq, Structural)]
pub enum Category {
    Health,
    Education,
    Market,
    Transport,
    Walkability,
    Recreation,
    Safety,
    Police,
    Religious,
    Accessibility,
}

impl Category {
    /// The label under which the category is reported.
    pub open spec fn label_spec(self) -> Seq<char> {
        match self {
            Category::Health => "health"@,
            Category::Education => "education"@,
            Category::Market => "market"@,
            Category::Transport => "transport"@,
            Category::Walkability => "walkability"@,
            Category::Recreation => "recreation"@,
            Category::Safety => "safety"@,
            Category::Police => "police"@,
            Category::Religious => "religious"@,
            Category::Accessibility => "accessibility"@,
        }
    }

    pub fn label(&self) -> (r: &'static str)
        ensures
            r@ == self.label_spec(),
    {
        match self {
            Category::Health => "health",
            Category::Education => "education",
            Category::Market => "market",
            Category::Transport => "transport",
            Category::Walkability => "walkability",
            Category::Recreation => "recreation",
            Category::Safety => "safety",
            Category::Police => "police",
            Category::Religious => "religious",
            Category::Accessibility => "accessibility",
        }
    }
}

/// The category whose label is `s`, if any.
pub fn category_from_label(s: &str) -> (r: Option<Category>)
    ensures
        match r {
            Some(c) => c.label_spec() == s@,
            None => forall|c: Category| #[trigger] c.label_spec() != s@,
        },
{
    let all: [Category; 10] = [
        Category::Health,
        Category::Education,
        Category::Market,
        Category::Transport,
        Category::Walkability,
        Category::Recreation,
        Category::Safety,
        Category::Police,
        Category::Religious,
        Category::Accessibility,
    ];
    let wanted = s.to_owned();
    let mut i: usize = 0;
    while i < 10
        invariant
            0 <= i <= 10,
            wanted@ == s@,
            all@ == seq![
                Category::Health,
                Category::Education,
                Category::Market,
                Category::Transport,
                Category::Walkability,
                Category::Recreation,
                Category::Safety,
                Category::Police,
                Category::Religious,
                Category::Accessibility,
            ],
            forall|j: int| 0 <= j < i ==> (#[trigger] all@[j]).label_spec() != s@,
        decreases 10 - i,
    {
        let c = all[i];
        let label = c.label().to_owned();
        if label == wanted {
            return Some(c);
        }
        i += 1;
    }
    assert forall|c: Category| #[trigger] c.label_spec() != s@ by {
        match c {
            Category::Health => assert(all@[0] == c),
            Category::Education => assert(all@[1] == c),
            Category::Market => assert(all@[2] == c),
            Category::Transport => assert(all@[3] == c),
            Category::Walkability => assert(all@[4] == c),
            Category::Recreation => assert(all@[5] == c),
            Category::Safety => assert(all@[6] == c),
            Category::Police => assert(all@[7] == c),
            Category::Religious => assert(all@[8] == c),
            Category::Accessibility => assert(all@[9] == c),
        }
    }
    None
}

/// The categories among `labels`, in order; other labels are left out.
pub open spec fn categories_of_labels(labels: Seq<Seq<char>>) -> Seq<Category>
    decreases labels.len(),
{
    if labels.len() == 0 {
        Seq::empty()
    } else {
        let prev = categories_of_labels(labels.drop_last());
        if exists|c: Category| #[trigger] c.label_spec() == labels.last() {
            prev.push(choose|c: Category| #[trigger] c.label_spec() == labels.last())
        } else {
            prev
        }
    }
}

proof fn lemma_labels_distinct(a: Category, b: Category)
    requires
        a.label_spec() == b.label_spec(),
    ensures
        a == b,
{
    reveal_strlit("health");
    assert("health"@.len() == 6 && "health"@[0] == 'h');
    reveal_strlit("education");
    assert("education"@.len() == 9 && "education"@[0] == 'e');
    reveal_strlit("market");
    assert("market"@.len() == 6 && "market"@[0] == 'm');
    reveal_strlit("transport");
    assert("transport"@.len() == 9 && "transport"@[0] == 't');
    reveal_strlit("walkability");
    assert("walkability"@.len() == 11 && "walkability"@[0] == 'w');
    reveal_strlit("recreation");
    assert("recreation"@.len() == 10 && "recreation"@[0] == 'r');
    reveal_strlit("safety");
    assert("safety"@.len() == 6 && "safety"@[0] == 's');
    reveal_strlit("police");
    assert("police"@.len() == 6 && "police"@[0] == 'p');
    reveal_strlit("religious");
    assert("religious"@.len() == 9 && "religious"@[0] == 'r');
    reveal_strlit("accessibility");
    assert("accessibility"@.len() == 13 && "accessibility"@[0] == 'a');
    assert(a.label_spec().len() == b.label_spec().len());
    assert(a.label_spec()[0] == b.label_spec()[0]);
}

/// The categories named by `labels`, in order; unknown labels are left out.
pub fn categories_from_labels(labels: &Vec<String>) -> (r: Vec<Category>)
    ensures
        r@ == categories_of_labels(labels@.map_values(|s: String| s@)),
{
    let ghost all = labels@.map_values(|s: String| s@);
    let n = labels.len();
    let mut out: Vec<Category> = Vec::new();
    let mut i: usize = 0;
    assert(all.take(0) =~= Seq::<Seq<char>>::empty());
    while i < n
        invariant
            n == labels@.len(),
            all == labels@.map_values(|s: String| s@),
            0 <= i <= n,
            out@ == categories_of_labels(all.take(i as int)),
        decreases n - i,
    {
        proof {
            assert(all.take(i + 1).drop_last() =~= all.take(i as int));
            assert(all.take(i + 1).last() == labels@[i as int]@);
        }
        match category_from_label(labels[i].as_str()) {
            Some(c) => {
                proof {
                    let d = choose|d: Category| #[trigger] d.label_spec() == labels@[i as int]@;
                    lemma_labels_distinct(c, d);
                }
                out.push(c);
            },
            None => {},
        }
        i += 1;
    }
    assert(all.take(n as int) =~= all);
    out
}

} // verus!
