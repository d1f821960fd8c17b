use vstd::prelude::*;
use crate::category::Category;
use crate::tags::{Tags, Tag, tag_text, get_tag_as_str};
use crate::text::{
    texts,
    contains_any,
    is_substring,
    lower_of,
    lowercase,
    name_contains_any,
    list_contains,
    copy_list,
    starts_with,
};

verus! {

/// A value of the category pattern table.
pub enum PatternValue {
    List(Vec<String>),
    Flag(bool),
    Other,
}

/// One `category.key = value` setting of the category pattern table.
pub struct PatternEntry {
    pub category: String,
    pub key: String,
    pub value: PatternValue,
}

/// The category pattern table, as loaded from configuration.
pub struct PatternTable {
    pub entries: Vec<PatternEntry>,
}

/// The value stored under `category` and `key`, where there is one.
pub open spec fn pattern_lookup(entries: Seq<PatternEntry>, category: Seq<char>, key: Seq<char>) -> Option<
    PatternValue,
>
    decreases entries.len(),
{
    if entries.len() == 0 {
        None
    } else if entries[0].category@ == category && entries[0].key@ == key {
        Some(entries[0].value)
    } else {
        pattern_lookup(entries.drop_first(), category, key)
    }
}

/// The list stored under `category` and `key`; empty where none is.
pub open spec fn list_of(entries: Seq<PatternEntry>, category: Seq<char>, key: Seq<char>) -> Seq<
    Seq<char>,
> {
    match pattern_lookup(entries, category, key) {
        Some(PatternValue::List(l)) => texts(l@),
        _ => Seq::empty(),
    }
}

/// The flag stored under `category` and `key`; `default` where none is.
pub open spec fn flag_of(
    entries: Seq<PatternEntry>,
    category: Seq<char>,
    key: Seq<char>,
    default: bool,
) -> bool {
    match pattern_lookup(entries, category, key) {
        Some(PatternValue::Flag(b)) => b,
        _ => default,
    }
}

impl PatternTable {
    /// The entry stored under `category` and `key`.
    fn find(&self, category: &str, key: &str) -> (r: Option<&PatternValue>)
        ensures
            match r {
                Some(v) => pattern_lookup(self.entries@, category@, key@) == Some(*v),
                None => pattern_lookup(self.entries@, category@, key@) is None,
            },
    {
        let cat = category.to_owned();
        let wanted = key.to_owned();
        let n = self.entries.len();
        let mut i: usize = 0;
        assert(self.entries@.subrange(0, n as int) =~= self.entries@);
        while i < n
            invariant
                n == self.entries@.len(),
                0 <= i <= n,
                cat@ == category@,
                wanted@ == key@,
                pattern_lookup(self.entries@, category@, key@) == pattern_lookup(
                    self.entries@.subrange(i as int, n as int),
                    category@,
                    key@,
                ),
            decreases n - i,
        {
            let rest = Ghost(self.entries@.subrange(i as int, n as int));
            assert(rest@[0] == self.entries@[i as int]);
            let e = &self.entries[i];
            if e.category == cat && e.key == wanted {
                return Some(&e.value);
            }
            assert(rest@.drop_first() =~= self.entries@.subrange(i + 1, n as int));
            i += 1;
        }
        None
    }
}

/// The list under `category` and `key`, or an empty list.
pub fn get_list(table: &PatternTable, category: &str, key: &str) -> (r: Vec<String>)
    ensures
        texts(r@) == list_of(table.entries@, category@, key@),
{
    match table.find(category, key) {
        Some(PatternValue::List(l)) => copy_list(l),
        _ => {
            let r: Vec<String> = Vec::new();
            assert(texts(r@) =~= Seq::<Seq<char>>::empty());
            r
        },
    }
}

/// The flag under `category` and `key`, or `default`.
pub fn get_bool(table: &PatternTable, category: &str, key: &str, default: bool) -> (r: bool)
    ensures
        r == flag_of(table.entries@, category@, key@, default),
{
    match table.find(category, key) {
        Some(PatternValue::Flag(b)) => *b,
        _ => default,
    }
}

/// The meaning of a tag test.
pub enum TestView {
    Equals { key: Seq<char>, values: Seq<Seq<char>> },
    Present { key: Seq<char> },
}

/// A test on one tag of a record.
pub enum TagTest {
    /// The tag's value (empty where absent) is one of `values`.
    Equals { key: String, values: Vec<String> },
    /// The tag has a non-empty value.
    Present { key: String },
}

impl View for TagTest {
    type V = TestView;

    open spec fn view(&self) -> TestView {
        match self {
            TagTest::Equals { key, values } => TestView::Equals { key: key@, values: texts(values@) },
            TagTest::Present { key } => TestView::Present { key: key@ },
        }
    }
}

/// The meaning of a category rule.
pub struct RuleView {
    pub category: Category,
    pub tag_tests: Seq<TestView>,
    pub name_contains: Seq<Seq<char>>,
    pub name_prefixes: Seq<Seq<char>>,
    pub prefix_excludes: Seq<Seq<char>>,
}

/// The predicate of one category: it holds where any tag test holds, where
/// the name contains one of `name_contains`, or where the name starts with
/// one of `name_prefixes` and contains none of `prefix_excludes`.
pub struct CategoryRule {
    pub category: Category,
    pub tag_tests: Vec<TagTest>,
    pub name_contains: Vec<String>,
    pub name_prefixes: Vec<String>,
    pub prefix_excludes: Vec<String>,
}

impl View for CategoryRule {
    type V = RuleView;

    open spec fn view(&self) -> RuleView {
        RuleView {
            category: self.category,
            tag_tests: self.tag_tests@.map_values(|t: TagTest| t@),
            name_contains: texts(self.name_contains@),
            name_prefixes: texts(self.name_prefixes@),
            prefix_excludes: texts(self.prefix_excludes@),
        }
    }
}

/// The category rules, in the order in which they are tried.
pub struct RuleSet {
    pub rules: Vec<CategoryRule>,
}

impl View for RuleSet {
    type V = Seq<RuleView>;

    open spec fn view(&self) -> Seq<RuleView> {
        self.rules@.map_values(|r: CategoryRule| r@)
    }
}

pub open spec fn test_holds(t: TestView, tags: Seq<Tag>) -> bool {
    match t {
        TestView::Equals { key, values } => values.contains(tag_text(tags, key)),
        TestView::Present { key } => tag_text(tags, key).len() > 0,
    }
}

pub open spec fn prefix_holds(rule: RuleView, name: Seq<char>) -> bool {
    (exists|k: int|
        0 <= k < rule.name_prefixes.len() && (#[trigger] rule.name_prefixes[k]).is_prefix_of(name))
        && !contains_any(name, rule.prefix_excludes)
}

pub open spec fn rule_holds(rule: RuleView, tags: Seq<Tag>, name: Seq<char>) -> bool {
    ||| exists|k: int| 0 <= k < rule.tag_tests.len() && test_holds(#[trigger] rule.tag_tests[k], tags)
    ||| contains_any(name, rule.name_contains)
    ||| prefix_holds(rule, name)
}

/// The category of the first rule that holds, if any.
pub open spec fn classify(rules: Seq<RuleView>, tags: Seq<Tag>, name: Seq<char>) -> Option<Category>
    decreases rules.len(),
{
    if rules.len() == 0 {
        None
    } else if rule_holds(rules[0], tags, name) {
        Some(rules[0].category)
    } else {
        classify(rules.drop_first(), tags, name)
    }
}

fn tag_test_holds(test: &TagTest, tags: &Tags) -> (r: bool)
    ensures
        r == test_holds(test@, tags.entries@),
{
    match test {
        TagTest::Equals { key, values } => {
            let v = get_tag_as_str(tags, key.as_str());
            list_contains(values, v)
        },
        TagTest::Present { key } => {
            let v = get_tag_as_str(tags, key.as_str());
            !v.is_empty()
        },
    }
}

fn prefix_match(name: &str, prefixes: &Vec<String>, excludes: &Vec<String>) -> (r: bool)
    ensures
        r == ((exists|k: int|
            0 <= k < prefixes@.len() && (#[trigger] texts(prefixes@)[k]).is_prefix_of(name@))
            && !contains_any(name@, texts(excludes@))),
{
    let n = prefixes.len();
    let mut k: usize = 0;
    while k < n
        invariant
            n == prefixes@.len(),
            0 <= k <= n,
            forall|j: int| 0 <= j < k ==> !(#[trigger] texts(prefixes@)[j]).is_prefix_of(name@),
        decreases n - k,
    {
        if starts_with(name, prefixes[k].as_str()) {
            assert(texts(prefixes@)[k as int] == prefixes@[k as int]@);
            return !name_contains_any(name, excludes);
        }
        k += 1;
    }
    false
}

fn rule_matches(rule: &CategoryRule, tags: &Tags, name: &str) -> (r: bool)
    ensures
        r == rule_holds(rule@, tags.entries@, name@),
{
    let ghost v = rule@;
    let n = rule.tag_tests.len();
    let mut k: usize = 0;
    while k < n
        invariant
            n == rule.tag_tests@.len(),
            v == rule@,
            0 <= k <= n,
            forall|j: int| 0 <= j < k ==> !test_holds(#[trigger] v.tag_tests[j], tags.entries@),
        decreases n - k,
    {
        if tag_test_holds(&rule.tag_tests[k], tags) {
            assert(test_holds(v.tag_tests[k as int], tags.entries@));
            return true;
        }
        k += 1;
    }
    assert(!exists|j: int| 0 <= j < v.tag_tests.len() && test_holds(#[trigger] v.tag_tests[j], tags.entries@));
    if name_contains_any(name, &rule.name_contains) {
        return true;
    }
    let r = prefix_match(name, &rule.name_prefixes, &rule.prefix_excludes);
    assert(v.name_prefixes == texts(rule.name_prefixes@));
    assert(v.name_prefixes.len() == rule.name_prefixes@.len());
    r
}

/// The category of a record whose name is already lower-cased: that of the
/// first rule, in order, that holds of its tags and name.
pub fn detect_category_lowered(rules: &RuleSet, tags: &Tags, name: &str) -> (r: Option<Category>)
    ensures
        r == classify(rules@, tags.entries@, name@),
{
    let n = rules.rules.len();
    let mut i: usize = 0;
    assert(rules@.subrange(0, n as int) =~= rules@);
    while i < n
        invariant
            n == rules.rules@.len(),
            n == rules@.len(),
            0 <= i <= n,
            classify(rules@, tags.entries@, name@) == classify(
                rules@.subrange(i as int, n as int),
                tags.entries@,
                name@,
            ),
        decreases n - i,
    {
        let rest = Ghost(rules@.subrange(i as int, n as int));
        assert(rest@[0] == rules.rules@[i as int]@);
        if rule_matches(&rules.rules[i], tags, name) {
            return Some(rules.rules[i].category);
        }
        assert(rest@.drop_first() =~= rules@.subrange(i + 1, n as int));
        i += 1;
    }
    None
}

/// The category of a record: that of the first rule, in order, that holds of
/// its tags and of its lower-cased name.
pub fn detect_category(rules: &RuleSet, tags: &Tags, raw_name: &str) -> (r: Option<Category>)
    ensures
        r == classify(rules@, tags.entries@, lower_of(raw_name@)),
{
    let name = lowercase(raw_name);
    detect_category_lowered(rules, tags, name.as_str())
}


/// The test that the tag `tag` has one of the values listed under
/// `category` and `key`.
pub open spec fn equals_view(t: Seq<PatternEntry>, category: Seq<char>, tag: Seq<char>, key: Seq<char>) -> TestView {
    TestView::Equals { key: tag, values: list_of(t, category, key) }
}

/// The test that the tag `tag` is `yes`.
pub open spec fn yes_view(tag: Seq<char>) -> TestView {
    TestView::Equals { key: tag, values: seq!["yes"@] }
}

/// `seq![test]` where `on`, else nothing.
pub open spec fn flagged(on: bool, test: TestView) -> Seq<TestView> {
    if on {
        seq![test]
    } else {
        Seq::empty()
    }
}

pub open spec fn education_rule_spec(t: Seq<PatternEntry>) -> RuleView {
    RuleView {
        category: Category::Education,
        tag_tests: seq![equals_view(t, "education"@, "amenity"@, "amenity_equals"@)],
        name_contains: list_of(t, "education"@, "name_contains"@),
        name_prefixes: Seq::empty(),
        prefix_excludes: Seq::empty(),
    }
}

pub open spec fn police_rule_spec(t: Seq<PatternEntry>) -> RuleView {
    RuleView {
        category: Category::Police,
        tag_tests: seq![equals_view(t, "police"@, "amenity"@, "amenity_equals"@)],
        name_contains: list_of(t, "police"@, "name_contains"@),
        name_prefixes: Seq::empty(),
        prefix_excludes: Seq::empty(),
    }
}

pub open spec fn market_rule_spec(t: Seq<PatternEntry>) -> RuleView {
    RuleView {
        category: Category::Market,
        tag_tests: flagged(
            flag_of(t, "market"@, "shop_non_empty"@, true),
            TestView::Present { key: "shop"@ },
        ) + seq![equals_view(t, "market"@, "amenity"@, "amenity_equals"@)],
        name_contains: list_of(t, "market"@, "name_contains"@),
        name_prefixes: Seq::empty(),
        prefix_excludes: Seq::empty(),
    }
}

pub open spec fn health_rule_spec(t: Seq<PatternEntry>) -> RuleView {
    RuleView {
        category: Category::Health,
        tag_tests: seq![equals_view(t, "health"@, "amenity"@, "amenity_equals"@)],
        name_contains: list_of(t, "health"@, "name_contains"@),
        name_prefixes: list_of(t, "health"@, "name_prefixes"@),
        prefix_excludes: list_of(t, "health"@, "name_prefix_exclude"@),
    }
}

pub open spec fn transport_rule_spec(t: Seq<PatternEntry>) -> RuleView {
    RuleView {
        category: Category::Transport,
        tag_tests: seq![
            equals_view(t, "transport"@, "public_transport"@, "public_transport_equals"@),
            equals_view(t, "transport"@, "highway"@, "highway_equals"@),
            equals_view(t, "transport"@, "railway"@, "railway_equals"@),
        ],
        name_contains: list_of(t, "transport"@, "name_contains"@),
        name_prefixes: Seq::empty(),
        prefix_excludes: Seq::empty(),
    }
}

pub open spec fn religious_rule_spec(t: Seq<PatternEntry>) -> RuleView {
    RuleView {
        category: Category::Religious,
        tag_tests: seq![equals_view(t, "religious"@, "amenity"@, "amenity_equals"@)],
        name_contains: list_of(t, "religious"@, "name_contains"@),
        name_prefixes: Seq::empty(),
        prefix_excludes: Seq::empty(),
    }
}

pub open spec fn recreation_rule_spec(t: Seq<PatternEntry>) -> RuleView {
    RuleView {
        category: Category::Recreation,
        tag_tests: seq![
            equals_view(t, "recreation"@, "leisure"@, "leisure_equals"@),
            equals_view(t, "recreation"@, "amenity"@, "amenity_equals"@),
        ],
        name_contains: list_of(t, "recreation"@, "name_contains"@),
        name_prefixes: Seq::empty(),
        prefix_excludes: Seq::empty(),
    }
}

pub open spec fn walkability_rule_spec(t: Seq<PatternEntry>) -> RuleView {
    RuleView {
        category: Category::Walkability,
        tag_tests: seq![
            equals_view(t, "walkability"@, "highway"@, "highway_equals"@),
            equals_view(t, "walkability"@, "route"@, "route_equals"@),
            equals_view(t, "walkability"@, "amenity"@, "amenity_equals"@),
        ] + flagged(flag_of(t, "walkability"@, "lit_yes"@, true), yes_view("lit"@)) + flagged(
            flag_of(t, "walkability"@, "traffic_calming_present"@, true),
            TestView::Present { key: "traffic_calming"@ },
        ) + seq![
            equals_view(t, "walkability"@, "natural"@, "natural_equals"@),
            equals_view(t, "walkability"@, "landuse"@, "landuse_equals"@),
        ],
        name_contains: Seq::empty(),
        name_prefixes: Seq::empty(),
        prefix_excludes: Seq::empty(),
    }
}

pub open spec fn accessibility_rule_spec(t: Seq<PatternEntry>) -> RuleView {
    RuleView {
        category: Category::Accessibility,
        tag_tests: seq![
            equals_view(t, "accessibility"@, "barrier"@, "barrier_equals"@),
            equals_view(t, "accessibility"@, "kerb"@, "kerb_equals"@),
            equals_view(t, "accessibility"@, "highway"@, "highway_equals"@),
            equals_view(t, "accessibility"@, "wheelchair"@, "wheelchair_equals"@),
            equals_view(t, "accessibility"@, "amenity"@, "amenity_equals"@),
        ] + flagged(
            flag_of(t, "accessibility"@, "tactile_paving_yes"@, true),
            yes_view("tactile_paving"@),
        ),
        name_contains: Seq::empty(),
        name_prefixes: Seq::empty(),
        prefix_excludes: Seq::empty(),
    }
}

pub open spec fn safety_rule_spec(t: Seq<PatternEntry>) -> RuleView {
    RuleView {
        category: Category::Safety,
        tag_tests: seq![equals_view(t, "safety"@, "highway"@, "highway_equals"@)] + flagged(
            flag_of(t, "safety"@, "lit_yes"@, true),
            yes_view("lit"@),
        ) + flagged(
            flag_of(t, "safety"@, "traffic_calming_present"@, true),
            TestView::Present { key: "traffic_calming"@ },
        ) + seq![
            equals_view(t, "safety"@, "man_made"@, "man_made_equals"@),
            equals_view(t, "safety"@, "amenity"@, "amenity_equals"@),
        ],
        name_contains: Seq::empty(),
        name_prefixes: Seq::empty(),
        prefix_excludes: Seq::empty(),
    }
}

/// The ten category rules in their order of evaluation.
pub open spec fn standard_rules_spec(t: Seq<PatternEntry>) -> Seq<RuleView> {
    seq![
        education_rule_spec(t),
        police_rule_spec(t),
        market_rule_spec(t),
        health_rule_spec(t),
        transport_rule_spec(t),
        religious_rule_spec(t),
        recreation_rule_spec(t),
        walkability_rule_spec(t),
        accessibility_rule_spec(t),
        safety_rule_spec(t),
    ]
}

/// Appends `test` to `tests`.
fn push_test(tests: &mut Vec<TagTest>, test: TagTest)
    ensures
        final(tests)@.map_values(|t: TagTest| t@) == old(tests)@.map_values(|t: TagTest| t@).push(
            test@,
        ),
{
    tests.push(test);
    assert(final(tests)@.map_values(|t: TagTest| t@) =~= old(tests)@.map_values(|t: TagTest| t@).push(
        test@,
    ));
}

fn equals_test(table: &PatternTable, category: &str, tag: &str, key: &str) -> (r: TagTest)
    ensures
        r@ == equals_view(table.entries@, category@, tag@, key@),
{
    TagTest::Equals { key: tag.to_owned(), values: get_list(table, category, key) }
}

fn yes_test(tag: &str) -> (r: TagTest)
    ensures
        r@ == yes_view(tag@),
{
    let mut values: Vec<String> = Vec::new();
    values.push("yes".to_owned());
    assert(texts(values@) =~= seq!["yes"@]);
    TagTest::Equals { key: tag.to_owned(), values }
}

fn present_test(tag: &str) -> (r: TagTest)
    ensures
        r@ == (TestView::Present { key: tag@ }),
{
    TagTest::Present { key: tag.to_owned() }
}

fn no_texts() -> (r: Vec<String>)
    ensures
        texts(r@) == Seq::<Seq<char>>::empty(),
{
    let r: Vec<String> = Vec::new();
    assert(texts(r@) =~= Seq::<Seq<char>>::empty());
    r
}

fn is_education(t: &PatternTable) -> (r: CategoryRule)
    ensures
        r@ == education_rule_spec(t.entries@),
{
    let mut tests: Vec<TagTest> = Vec::new();
    push_test(&mut tests, equals_test(t, "education", "amenity", "amenity_equals"));
    let r = CategoryRule {
        category: Category::Education,
        tag_tests: tests,
        name_contains: get_list(t, "education", "name_contains"),
        name_prefixes: no_texts(),
        prefix_excludes: no_texts(),
    };
    assert(r@.tag_tests =~= education_rule_spec(t.entries@).tag_tests);
    r
}

fn is_police(t: &PatternTable) -> (r: CategoryRule)
    ensures
        r@ == police_rule_spec(t.entries@),
{
    let mut tests: Vec<TagTest> = Vec::new();
    push_test(&mut tests, equals_test(t, "police", "amenity", "amenity_equals"));
    let r = CategoryRule {
        category: Category::Police,
        tag_tests: tests,
        name_contains: get_list(t, "police", "name_contains"),
        name_prefixes: no_texts(),
        prefix_excludes: no_texts(),
    };
    assert(r@.tag_tests =~= police_rule_spec(t.entries@).tag_tests);
    r
}

fn is_market(t: &PatternTable) -> (r: CategoryRule)
    ensures
        r@ == market_rule_spec(t.entries@),
{
    let mut tests: Vec<TagTest> = Vec::new();
    if get_bool(t, "market", "shop_non_empty", true) {
        push_test(&mut tests, present_test("shop"));
    }
    push_test(&mut tests, equals_test(t, "market", "amenity", "amenity_equals"));
    let r = CategoryRule {
        category: Category::Market,
        tag_tests: tests,
        name_contains: get_list(t, "market", "name_contains"),
        name_prefixes: no_texts(),
        prefix_excludes: no_texts(),
    };
    assert(r@.tag_tests =~= market_rule_spec(t.entries@).tag_tests);
    r
}

fn is_health(t: &PatternTable) -> (r: CategoryRule)
    ensures
        r@ == health_rule_spec(t.entries@),
{
    let mut tests: Vec<TagTest> = Vec::new();
    push_test(&mut tests, equals_test(t, "health", "amenity", "amenity_equals"));
    let r = CategoryRule {
        category: Category::Health,
        tag_tests: tests,
        name_contains: get_list(t, "health", "name_contains"),
        name_prefixes: get_list(t, "health", "name_prefixes"),
        prefix_excludes: get_list(t, "health", "name_prefix_exclude"),
    };
    assert(r@.tag_tests =~= health_rule_spec(t.entries@).tag_tests);
    r
}

fn is_transport(t: &PatternTable) -> (r: CategoryRule)
    ensures
        r@ == transport_rule_spec(t.entries@),
{
    let mut tests: Vec<TagTest> = Vec::new();
    push_test(
        &mut tests,
        equals_test(t, "transport", "public_transport", "public_transport_equals"),
    );
    push_test(&mut tests, equals_test(t, "transport", "highway", "highway_equals"));
    push_test(&mut tests, equals_test(t, "transport", "railway", "railway_equals"));
    let r = CategoryRule {
        category: Category::Transport,
        tag_tests: tests,
        name_contains: get_list(t, "transport", "name_contains"),
        name_prefixes: no_texts(),
        prefix_excludes: no_texts(),
    };
    assert(r@.tag_tests =~= transport_rule_spec(t.entries@).tag_tests);
    r
}

fn is_religious(t: &PatternTable) -> (r: CategoryRule)
    ensures
        r@ == religious_rule_spec(t.entries@),
{
    let mut tests: Vec<TagTest> = Vec::new();
    push_test(&mut tests, equals_test(t, "religious", "amenity", "amenity_equals"));
    let r = CategoryRule {
        category: Category::Religious,
        tag_tests: tests,
        name_contains: get_list(t, "religious", "name_contains"),
        name_prefixes: no_texts(),
        prefix_excludes: no_texts(),
    };
    assert(r@.tag_tests =~= religious_rule_spec(t.entries@).tag_tests);
    r
}

fn is_recreation(t: &PatternTable) -> (r: CategoryRule)
    ensures
        r@ == recreation_rule_spec(t.entries@),
{
    let mut tests: Vec<TagTest> = Vec::new();
    push_test(&mut tests, equals_test(t, "recreation", "leisure", "leisure_equals"));
    push_test(&mut tests, equals_test(t, "recreation", "amenity", "amenity_equals"));
    let r = CategoryRule {
        category: Category::Recreation,
        tag_tests: tests,
        name_contains: get_list(t, "recreation", "name_contains"),
        name_prefixes: no_texts(),
        prefix_excludes: no_texts(),
    };
    assert(r@.tag_tests =~= recreation_rule_spec(t.entries@).tag_tests);
    r
}

fn is_walkability(t: &PatternTable) -> (r: CategoryRule)
    ensures
        r@ == walkability_rule_spec(t.entries@),
{
    let mut tests: Vec<TagTest> = Vec::new();
    push_test(&mut tests, equals_test(t, "walkability", "highway", "highway_equals"));
    push_test(&mut tests, equals_test(t, "walkability", "route", "route_equals"));
    push_test(&mut tests, equals_test(t, "walkability", "amenity", "amenity_equals"));
    if get_bool(t, "walkability", "lit_yes", true) {
        push_test(&mut tests, yes_test("lit"));
    }
    if get_bool(t, "walkability", "traffic_calming_present", true) {
        push_test(&mut tests, present_test("traffic_calming"));
    }
    push_test(&mut tests, equals_test(t, "walkability", "natural", "natural_equals"));
    push_test(&mut tests, equals_test(t, "walkability", "landuse", "landuse_equals"));
    let r = CategoryRule {
        category: Category::Walkability,
        tag_tests: tests,
        name_contains: no_texts(),
        name_prefixes: no_texts(),
        prefix_excludes: no_texts(),
    };
    assert(r@.tag_tests =~= walkability_rule_spec(t.entries@).tag_tests);
    r
}

fn is_accessibility(t: &PatternTable) -> (r: CategoryRule)
    ensures
        r@ == accessibility_rule_spec(t.entries@),
{
    let mut tests: Vec<TagTest> = Vec::new();
    push_test(&mut tests, equals_test(t, "accessibility", "barrier", "barrier_equals"));
    push_test(&mut tests, equals_test(t, "accessibility", "kerb", "kerb_equals"));
    push_test(&mut tests, equals_test(t, "accessibility", "highway", "highway_equals"));
    push_test(&mut tests, equals_test(t, "accessibility", "wheelchair", "wheelchair_equals"));
    push_test(&mut tests, equals_test(t, "accessibility", "amenity", "amenity_equals"));
    if get_bool(t, "accessibility", "tactile_paving_yes", true) {
        push_test(&mut tests, yes_test("tactile_paving"));
    }
    let r = CategoryRule {
        category: Category::Accessibility,
        tag_tests: tests,
        name_contains: no_texts(),
        name_prefixes: no_texts(),
        prefix_excludes: no_texts(),
    };
    assert(r@.tag_tests =~= accessibility_rule_spec(t.entries@).tag_tests);
    r
}

fn is_safety(t: &PatternTable) -> (r: CategoryRule)
    ensures
        r@ == safety_rule_spec(t.entries@),
{
    let mut tests: Vec<TagTest> = Vec::new();
    push_test(&mut tests, equals_test(t, "safety", "highway", "highway_equals"));
    if get_bool(t, "safety", "lit_yes", true) {
        push_test(&mut tests, yes_test("lit"));
    }
    if get_bool(t, "safety", "traffic_calming_present", true) {
        push_test(&mut tests, present_test("traffic_calming"));
    }
    push_test(&mut tests, equals_test(t, "safety", "man_made", "man_made_equals"));
    push_test(&mut tests, equals_test(t, "safety", "amenity", "amenity_equals"));
    let r = CategoryRule {
        category: Category::Safety,
        tag_tests: tests,
        name_contains: no_texts(),
        name_prefixes: no_texts(),
        prefix_excludes: no_texts(),
    };
    assert(r@.tag_tests =~= safety_rule_spec(t.entries@).tag_tests);
    r
}

/// Appends `rule` to `rules`.
fn push_rule(rules: &mut Vec<CategoryRule>, rule: CategoryRule)
    ensures
        final(rules)@.map_values(|r: CategoryRule| r@) == old(rules)@.map_values(
            |r: CategoryRule| r@,
        ).push(rule@),
{
    rules.push(rule);
    assert(final(rules)@.map_values(|r: CategoryRule| r@) =~= old(rules)@.map_values(
        |r: CategoryRule| r@,
    ).push(rule@));
}

impl RuleSet {
    /// The ten category rules read from `table`, in the order education,
    /// police, market, health, transport, religious, recreation,
    /// walkability, accessibility, safety.
    pub fn standard(table: &PatternTable) -> (r: RuleSet)
        ensures
            r@ == standard_rules_spec(table.entries@),
    {
        let mut rules: Vec<CategoryRule> = Vec::new();
        push_rule(&mut rules, is_education(table));
        push_rule(&mut rules, is_police(table));
        push_rule(&mut rules, is_market(table));
        push_rule(&mut rules, is_health(table));
        push_rule(&mut rules, is_transport(table));
        push_rule(&mut rules, is_religious(table));
        push_rule(&mut rules, is_recreation(table));
        push_rule(&mut rules, is_walkability(table));
        push_rule(&mut rules, is_accessibility(table));
        push_rule(&mut rules, is_safety(table));
        let r = RuleSet { rules };
        assert(r@ =~= standard_rules_spec(table.entries@));
        r
    }
}

/// The classifier picks the first rule, in order, that holds of the tags
/// and the name, and no category where none holds; the result depends on
/// the rules, the tags and the lower-cased name alone.
pub proof fn classify_picks_first_matching_rule(
    rules: Seq<RuleView>,
    tags: Seq<Tag>,
    name: Seq<char>,
)
    ensures
        classify(rules, tags, name) is None <==> forall|i: int|
            0 <= i < rules.len() ==> !rule_holds(#[trigger] rules[i], tags, name),
        forall|c: Category|
            classify(rules, tags, name) == Some(c) <==> exists|i: int|
                0 <= i < rules.len() && rule_holds(#[trigger] rules[i], tags, name) && rules[i].category
                    == c && forall|j: int| 0 <= j < i ==> !rule_holds(#[trigger] rules[j], tags, name),
    decreases rules.len(),
{
    if rules.len() > 0 {
        let rest = rules.drop_first();
        classify_picks_first_matching_rule(rest, tags, name);
        assert forall|i: int| 0 < i < rules.len() implies rules[i] == rest[i - 1] by {}
        if rule_holds(rules[0], tags, name) {
            assert forall|c: Category|
                classify(rules, tags, name) == Some(c) <==> exists|i: int|
                    0 <= i < rules.len() && rule_holds(#[trigger] rules[i], tags, name) && rules[i].category
                        == c && forall|j: int| 0 <= j < i ==> !rule_holds(#[trigger] rules[j], tags, name) by {
                if exists|i: int|
                    0 <= i < rules.len() && rule_holds(#[trigger] rules[i], tags, name) && rules[i].category
                        == c && forall|j: int| 0 <= j < i ==> !rule_holds(#[trigger] rules[j], tags, name) {
                    let i = choose|i: int|
                        0 <= i < rules.len() && rule_holds(#[trigger] rules[i], tags, name) && rules[i].category
                            == c && forall|j: int| 0 <= j < i ==> !rule_holds(#[trigger] rules[j], tags, name);
                    if i > 0 {
                        assert(!rule_holds(rules[0], tags, name));
                    }
                }
            }
        } else {
            assert forall|c: Category|
                classify(rules, tags, name) == Some(c) <==> exists|i: int|
                    0 <= i < rules.len() && rule_holds(#[trigger] rules[i], tags, name) && rules[i].category
                        == c && forall|j: int| 0 <= j < i ==> !rule_holds(#[trigger] rules[j], tags, name) by {
                if classify(rules, tags, name) == Some(c) {
                    let k = choose|k: int|
                        0 <= k < rest.len() && rule_holds(#[trigger] rest[k], tags, name) && rest[k].category
                            == c && forall|j: int| 0 <= j < k ==> !rule_holds(#[trigger] rest[j], tags, name);
                    assert(rules[k + 1] == rest[k]);
                    assert forall|j: int| 0 <= j < k + 1 implies !rule_holds(#[trigger] rules[j], tags, name) by {
                        if j > 0 {
                            assert(rules[j] == rest[j - 1]);
                        }
                    }
                }
                if exists|i: int|
                    0 <= i < rules.len() && rule_holds(#[trigger] rules[i], tags, name) && rules[i].category
                        == c && forall|j: int| 0 <= j < i ==> !rule_holds(#[trigger] rules[j], tags, name) {
                    let i = choose|i: int|
                        0 <= i < rules.len() && rule_holds(#[trigger] rules[i], tags, name) && rules[i].category
                            == c && forall|j: int| 0 <= j < i ==> !rule_holds(#[trigger] rules[j], tags, name);
                    assert(i > 0);
                    assert(rest[i - 1] == rules[i]);
                    assert forall|j: int| 0 <= j < i - 1 implies !rule_holds(#[trigger] rest[j], tags, name) by {
                        assert(rest[j] == rules[j + 1]);
                    }
                }
            }
            assert((forall|i: int| 0 <= i < rules.len() ==> !rule_holds(#[trigger] rules[i], tags, name))
                <== (forall|i: int| 0 <= i < rest.len() ==> !rule_holds(#[trigger] rest[i], tags, name))) by {
                if forall|i: int| 0 <= i < rest.len() ==> !rule_holds(#[trigger] rest[i], tags, name) {
                    assert forall|i: int| 0 <= i < rules.len() implies !rule_holds(#[trigger] rules[i], tags, name) by {
                        if i > 0 {
                            assert(rules[i] == rest[i - 1]);
                        }
                    }
                }
            }
            assert((forall|i: int| 0 <= i < rules.len() ==> !rule_holds(#[trigger] rules[i], tags, name))
                ==> (forall|i: int| 0 <= i < rest.len() ==> !rule_holds(#[trigger] rest[i], tags, name))) by {
                if forall|i: int| 0 <= i < rules.len() ==> !rule_holds(#[trigger] rules[i], tags, name) {
                    assert forall|i: int| 0 <= i < rest.len() implies !rule_holds(#[trigger] rest[i], tags, name) by {
                        assert(rest[i] == rules[i + 1]);
                    }
                }
            }
        }
    }
}

/// Records with the same tags and the same lower-cased name get the same
/// category, whatever was classified before.
pub proof fn classification_is_deterministic(
    rules: Seq<RuleView>,
    tags1: Seq<Tag>,
    name1: Seq<char>,
    tags2: Seq<Tag>,
    name2: Seq<char>,
)
    requires
        tags1 == tags2,
        lower_of(name1) == lower_of(name2),
    ensures
        classify(rules, tags1, lower_of(name1)) == classify(rules, tags2, lower_of(name2)),
{
}

} // verus!
